//! Typed access to a per-application preference store that lives behind a
//! native boundary: keys and text cross it as nul-terminated byte strings,
//! scalars come back with a presence flag, and text comes back in buffers
//! that have to be released.
//!
//! The crate holds the rules of that boundary and leaves the native calls to
//! its caller. Each accessor is split where the native store is entered:
//! `get_*` and `set_*` validate and encode the arguments and name the call to
//! make, or fail before anything reaches the store; `read_*` take what the
//! store answered and give the accessor's result, and for text say whether a
//! native buffer is to be released before that result is passed on.
//!
//! - [`cstring`]: nul-terminated byte strings, and text to and from them;
//! - [`error`]: the two failures, of encoding and of decoding;
//! - [`native`]: the store's calls and answers as data;
//! - [`accessor`]: the accessors themselves;
//! - [`store`]: the store as a map, and what the accessors guarantee on it;
//! - [`trace`]: the messages that accompany an accessor's steps.

pub mod accessor;
pub mod cstring;
pub mod error;
pub mod native;
pub mod store;
pub mod trace;

pub use accessor::{
    get_f64, get_i64, get_string, get_string_array, read_f64, read_i64, read_string,
    read_string_array, set_f64, set_i64, set_string, set_string_array, Fetched, FetchedView,
};
pub use cstring::{to_cstring, to_rust_str, CString};
pub use error::{agrees, Error, ErrorView, NulError};
pub use native::{Call, CallView, DoubleReply, LongReply};
pub use trace::{log_fetched, log_fetching, log_null, log_set, log_setting};

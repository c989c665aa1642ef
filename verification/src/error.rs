//! The two ways in which text fails to cross the native boundary.

use crate::cstring::CString;
use core::str::Utf8Error;
use vstd::prelude::*;

verus! {

/// Why a byte string has no nul-terminated form: it holds a nul byte itself.
#[derive(Debug)]
pub struct NulError {
    position: usize,
}

impl NulError {
    /// The index of the first nul byte.
    pub closed spec fn spec_nul_position(&self) -> usize {
        self.position
    }

    /// The error for a byte string whose first nul byte is at `position`.
    pub(crate) fn new(position: usize) -> (error: NulError)
        ensures
            error.spec_nul_position() == position,
    {
        NulError { position }
    }

    /// The index of the first nul byte.
    #[verifier::when_used_as_spec(spec_nul_position)]
    pub fn nul_position(&self) -> (position: usize)
        ensures
            position == self.spec_nul_position(),
    {
        self.position
    }
}

/// A failure of one of the accessors.
#[derive(Debug)]
#[allow(inconsistent_fields)]
pub enum Error {
    /// Text handed in by the caller, a key or a value, holds a nul byte and
    /// so cannot be passed to the native store.
    StringEncoding { value: String, source: NulError },
    /// A buffer handed back by the native store is not UTF-8.
    StringDecoding { value: CString, source: Utf8Error },
}

/// An [`Error`] as a mathematical value.
#[allow(inconsistent_fields)]
pub enum ErrorView {
    StringEncoding { value: Seq<char>, nul_position: nat },
    StringDecoding { value: Seq<u8>, source: Utf8Error },
}

impl View for Error {
    type V = ErrorView;

    open spec fn view(&self) -> ErrorView {
        match *self {
            Error::StringEncoding { value, source } => ErrorView::StringEncoding {
                value: value@,
                nul_position: source.spec_nul_position() as nat,
            },
            Error::StringDecoding { value, source } => ErrorView::StringDecoding {
                value: value@,
                source,
            },
        }
    }
}

impl DeepView for Error {
    type V = ErrorView;

    open spec fn deep_view(&self) -> ErrorView {
        self@
    }
}

/// Whether `r` is, as a mathematical value, `expected`.
pub open spec fn agrees<T: DeepView, E: DeepView>(
    r: Result<T, E>,
    expected: Result<T::V, E::V>,
) -> bool {
    match r {
        Ok(value) => expected == Ok::<T::V, E::V>(value.deep_view()),
        Err(error) => expected == Err::<T::V, E::V>(error.deep_view()),
    }
}

} // verus!

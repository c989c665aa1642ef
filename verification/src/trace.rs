//! The trace messages that accompany an accessor's steps.
//!
//! The functions build the text; emitting it is left to the caller.

use vstd::prelude::*;
use vstd::string::StringExecFns;

verus! {

/// The name of the 64-bit integer kind in messages.
pub const I64: &'static str = "i64";

/// The name of the 64-bit float kind in messages.
pub const F64: &'static str = "f64";

/// The name of the text kind in messages.
pub const STRING: &'static str = "string";

/// The name of the list-of-text kind in messages.
pub const STRING_ARRAY: &'static str = "string array";

/// How `core::fmt::Debug` shows the text `value`: in double quotes, with
/// its quotes, backslashes and unprintable characters escaped.
pub uninterp spec fn debug_text(value: Seq<char>) -> Seq<char>;

/// Formats `value` with `{:?}`, that is with the `core::fmt::Debug` of `str`.
/// What is taken on trust: the result depends on `value` alone.
#[verifier::external_body]
fn show(value: &str) -> (shown: String)
    ensures
        shown@ == debug_text(value@),
{
    format!("{:?}", value)
}

/// The message before a value of kind `type_` is fetched for `key`.
pub open spec fn fetching_message(type_: Seq<char>, key: Seq<char>) -> Seq<char> {
    "Fetching "@ + type_ + " value of user defaults key "@ + debug_text(key)
}

/// The message after the store held no value of kind `type_` for `key`.
pub open spec fn null_message(type_: Seq<char>, key: Seq<char>) -> Seq<char> {
    "User defaults key "@ + debug_text(key) + " was not present or not a "@ + type_ + " value"@
}

/// The message after `value`, of kind `type_`, was fetched for `key`.
pub open spec fn fetched_message(type_: Seq<char>, key: Seq<char>, value: Seq<char>) -> Seq<
    char,
> {
    "Fetched "@ + type_ + " value "@ + value + " of user defaults key "@ + debug_text(key)
}

/// The message before `key` is set to `value`, of kind `type_`.
pub open spec fn setting_message(type_: Seq<char>, key: Seq<char>, value: Seq<char>) -> Seq<
    char,
> {
    "Setting user defaults key "@ + debug_text(key) + " to "@ + type_ + " value "@ + value
}

/// The message after `key` was set to `value`, of kind `type_`.
pub open spec fn set_message(type_: Seq<char>, key: Seq<char>, value: Seq<char>) -> Seq<char> {
    "Set user defaults key "@ + debug_text(key) + " to "@ + type_ + " value "@ + value
}

/// The message before a value of kind `type_` is fetched for `key`.
pub fn log_fetching(type_: &str, key: &str) -> (message: String)
    ensures
        message@ == fetching_message(type_@, key@),
{
    let mut message = String::from_str("Fetching ");
    message.append(type_);
    message.append(" value of user defaults key ");
    message.append(show(key).as_str());
    message
}

/// The message after the store held no value of kind `type_` for `key`.
pub fn log_null(type_: &str, key: &str) -> (message: String)
    ensures
        message@ == null_message(type_@, key@),
{
    let mut message = String::from_str("User defaults key ");
    message.append(show(key).as_str());
    message.append(" was not present or not a ");
    message.append(type_);
    message.append(" value");
    message
}

/// The message after a value of kind `type_` was fetched for `key`; `value`
/// is that value as it is to be shown.
pub fn log_fetched(type_: &str, key: &str, value: &str) -> (message: String)
    ensures
        message@ == fetched_message(type_@, key@, value@),
{
    let mut message = String::from_str("Fetched ");
    message.append(type_);
    message.append(" value ");
    message.append(value);
    message.append(" of user defaults key ");
    message.append(show(key).as_str());
    message
}

/// The message before `key` is set to a value of kind `type_`; `value` is
/// that value as it is to be shown.
pub fn log_setting(type_: &str, key: &str, value: &str) -> (message: String)
    ensures
        message@ == setting_message(type_@, key@, value@),
{
    let mut message = String::from_str("Setting user defaults key ");
    message.append(show(key).as_str());
    message.append(" to ");
    message.append(type_);
    message.append(" value ");
    message.append(value);
    message
}

/// The message after `key` was set to a value of kind `type_`; `value` is
/// that value as it is to be shown.
pub fn log_set(type_: &str, key: &str, value: &str) -> (message: String)
    ensures
        message@ == set_message(type_@, key@, value@),
{
    let mut message = String::from_str("Set user defaults key ");
    message.append(show(key).as_str());
    message.append(" to ");
    message.append(type_);
    message.append(" value ");
    message.append(value);
    message
}

} // verus!

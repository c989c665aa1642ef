use user_defaults::trace::{F64, I64, STRING, STRING_ARRAY};
use user_defaults::{log_fetched, log_fetching, log_null, log_set, log_setting};

#[test]
fn kinds_have_their_names() {
    assert_eq!(I64, "i64");
    assert_eq!(F64, "f64");
    assert_eq!(STRING, "string");
    assert_eq!(STRING_ARRAY, "string array");
    assert_eq!(
        log_null(STRING_ARRAY, "string-array"),
        "User defaults key \"string-array\" was not present or not a string array value"
    );
    assert_eq!(log_set(F64, "f64", "123.456"), "Set user defaults key \"f64\" to f64 value 123.456");
    assert_eq!(log_fetching(I64, "i64"), "Fetching i64 value of user defaults key \"i64\"");
    assert_eq!(
        log_fetched(STRING, "string", "\"lorem ipsum\""),
        "Fetched string value \"lorem ipsum\" of user defaults key \"string\""
    );
}

#[test]
fn fetching_message_names_kind_and_key() {
    assert_eq!(
        log_fetching("i64", "answer"),
        "Fetching i64 value of user defaults key \"answer\""
    );
}

#[test]
fn null_message_names_kind_and_key() {
    assert_eq!(
        log_null("string array", "names"),
        "User defaults key \"names\" was not present or not a string array value"
    );
}

#[test]
fn fetched_message_names_kind_value_and_key() {
    assert_eq!(
        log_fetched("f64", "ratio", "123.456"),
        "Fetched f64 value 123.456 of user defaults key \"ratio\""
    );
}

#[test]
fn setting_message_names_key_kind_and_value() {
    assert_eq!(
        log_setting("string", "greeting", "\"lorem ipsum\""),
        "Setting user defaults key \"greeting\" to string value \"lorem ipsum\""
    );
}

#[test]
fn set_message_names_key_kind_and_value() {
    assert_eq!(
        log_set("i64", "answer", "42"),
        "Set user defaults key \"answer\" to i64 value 42"
    );
}

#[test]
fn keys_are_shown_quoted_and_escaped() {
    assert_eq!(
        log_fetching("string", "a\"b\\c\n\0"),
        "Fetching string value of user defaults key \"a\\\"b\\\\c\\n\\0\""
    );
    assert_eq!(log_fetching("string", ""), "Fetching string value of user defaults key \"\"");
    assert_eq!(
        log_set("string", "k\te\u{301}y", "v"),
        format!("Set user defaults key {:?} to string value v", "k\te\u{301}y")
    );
    assert_eq!(
        log_null("i64", "tab\t"),
        "User defaults key \"tab\\t\" was not present or not a i64 value"
    );
    assert_eq!(
        log_fetched("i64", "q\"", "0"),
        "Fetched i64 value 0 of user defaults key \"q\\\"\""
    );
    assert_eq!(
        log_setting("i64", "q'", "0"),
        "Setting user defaults key \"q'\" to i64 value 0"
    );
}

use user_defaults::{
    get_f64, get_i64, get_string, get_string_array, read_f64, read_i64, read_string,
    read_string_array, set_f64, set_i64, set_string, set_string_array, CString, Call,
    DoubleReply, Error, LongReply,
};

fn c(text: &str) -> CString {
    CString::new(text.as_bytes().to_vec()).unwrap()
}

fn raw(bytes: &[u8]) -> CString {
    CString::new(bytes.to_vec()).unwrap()
}

fn assert_key_rejected(r: Result<Call, Error>, key: &str, position: usize) {
    match r {
        Err(Error::StringEncoding { value, source }) => {
            assert_eq!(value, key);
            assert_eq!(source.nul_position(), position);
        }
        other => panic!("unexpected: {:?}", other),
    }
}

#[test]
fn get_i64_names_the_call_with_the_encoded_key() {
    match get_i64("i64").unwrap() {
        Call::GetLong { key } => assert_eq!(key.as_bytes_with_nul(), b"i64\0"),
        other => panic!("unexpected: {:?}", other),
    }
}

#[test]
fn set_i64_names_the_call_with_key_and_value() {
    match set_i64("i64", 42).unwrap() {
        Call::SetLong { key, value } => {
            assert_eq!(key.as_bytes_with_nul(), b"i64\0");
            assert_eq!(value, 42);
        }
        other => panic!("unexpected: {:?}", other),
    }
    match set_i64("min", i64::MIN).unwrap() {
        Call::SetLong { key, value } => {
            assert_eq!(key.as_bytes(), b"min");
            assert_eq!(value, i64::MIN);
        }
        other => panic!("unexpected: {:?}", other),
    }
}

#[test]
fn get_f64_names_the_call_with_the_encoded_key() {
    match get_f64("f64").unwrap() {
        Call::GetDouble { key } => assert_eq!(key.as_bytes_with_nul(), b"f64\0"),
        other => panic!("unexpected: {:?}", other),
    }
}

#[test]
fn set_f64_names_the_call_with_key_and_bits() {
    match set_f64("f64", 123.456f64.to_bits()).unwrap() {
        Call::SetDouble { key, bits } => {
            assert_eq!(key.as_bytes_with_nul(), b"f64\0");
            assert_eq!(bits, 0x405e_dd2f_1a9f_be77);
            assert_eq!(f64::from_bits(bits), 123.456);
        }
        other => panic!("unexpected: {:?}", other),
    }
}

#[test]
fn get_string_names_the_call_with_the_encoded_key() {
    match get_string("string").unwrap() {
        Call::GetString { key } => assert_eq!(key.as_bytes_with_nul(), b"string\0"),
        other => panic!("unexpected: {:?}", other),
    }
}

#[test]
fn set_string_names_the_call_with_key_and_value() {
    match set_string("string", "lorem ipsum").unwrap() {
        Call::SetString { key, value } => {
            assert_eq!(key.as_bytes_with_nul(), b"string\0");
            assert_eq!(value.as_bytes_with_nul(), b"lorem ipsum\0");
        }
        other => panic!("unexpected: {:?}", other),
    }
    match set_string("empty", "").unwrap() {
        Call::SetString { key, value } => {
            assert_eq!(key.as_bytes(), b"empty");
            assert_eq!(value.as_bytes_with_nul(), b"\0");
        }
        other => panic!("unexpected: {:?}", other),
    }
}

#[test]
fn get_string_array_names_the_call_with_the_encoded_key() {
    match get_string_array("string-array").unwrap() {
        Call::GetStringArray { key } => assert_eq!(key.as_bytes_with_nul(), b"string-array\0"),
        other => panic!("unexpected: {:?}", other),
    }
}

#[test]
fn set_string_array_names_the_call_with_the_values_in_order() {
    match set_string_array("string-array", &["one", "two", "three"]).unwrap() {
        Call::SetStringArray { key, values } => {
            assert_eq!(key.as_bytes_with_nul(), b"string-array\0");
            assert_eq!(values.len(), 3);
            assert_eq!(values[0].as_bytes_with_nul(), b"one\0");
            assert_eq!(values[1].as_bytes_with_nul(), b"two\0");
            assert_eq!(values[2].as_bytes_with_nul(), b"three\0");
        }
        other => panic!("unexpected: {:?}", other),
    }
    match set_string_array("none", &[]).unwrap() {
        Call::SetStringArray { key, values } => {
            assert_eq!(key.as_bytes(), b"none");
            assert!(values.is_empty());
        }
        other => panic!("unexpected: {:?}", other),
    }
}

#[test]
fn every_accessor_rejects_a_key_with_a_nul() {
    assert_key_rejected(get_i64("a\0b"), "a\0b", 1);
    assert_key_rejected(set_i64("a\0b", 1), "a\0b", 1);
    assert_key_rejected(get_f64("\0"), "\0", 0);
    assert_key_rejected(set_f64("ab\0", 1), "ab\0", 2);
    assert_key_rejected(get_string("a\0b"), "a\0b", 1);
    assert_key_rejected(set_string("a\0b", "value"), "a\0b", 1);
    assert_key_rejected(get_string_array("a\0b"), "a\0b", 1);
    assert_key_rejected(set_string_array("a\0b", &["one"]), "a\0b", 1);
}

#[test]
fn set_string_rejects_a_value_with_a_nul() {
    assert_key_rejected(set_string("key", "va\0lue"), "va\0lue", 2);
}

#[test]
fn set_string_reports_the_key_before_the_value() {
    assert_key_rejected(set_string("k\0", "v\0"), "k\0", 1);
}

#[test]
fn set_string_array_reports_the_first_value_with_a_nul() {
    assert_key_rejected(
        set_string_array("key", &["one", "t\0wo", "\0three"]),
        "t\0wo",
        1,
    );
    assert_key_rejected(set_string_array("key", &["one", "two", "three\0"]), "three\0", 5);
    assert_key_rejected(set_string_array("k\0", &["\0"]), "k\0", 1);
}

#[test]
fn read_i64_goes_by_the_flag() {
    assert_eq!(read_i64(LongReply { present: true, value: 42 }), Some(42));
    assert_eq!(read_i64(LongReply { present: true, value: 0 }), Some(0));
    assert_eq!(read_i64(LongReply { present: true, value: i64::MIN }), Some(i64::MIN));
    assert_eq!(read_i64(LongReply { present: false, value: 0 }), None);
    assert_eq!(read_i64(LongReply { present: false, value: 42 }), None);
}

#[test]
fn read_f64_goes_by_the_flag() {
    let bits = 123.456f64.to_bits();
    assert_eq!(read_f64(DoubleReply { present: true, bits }), Some(bits));
    assert_eq!(read_f64(DoubleReply { present: true, bits: 0 }), Some(0));
    assert_eq!(
        read_f64(DoubleReply { present: true, bits: f64::NAN.to_bits() }),
        Some(f64::NAN.to_bits())
    );
    assert_eq!(read_f64(DoubleReply { present: false, bits: 0 }), None);
    assert_eq!(read_f64(DoubleReply { present: false, bits }), None);
}

#[test]
fn read_string_of_no_buffer_is_no_value() {
    let fetched = read_string(None);
    assert!(!fetched.release);
    assert_eq!(fetched.result.unwrap(), None);
}

#[test]
fn read_string_decodes_and_asks_for_release() {
    let buffer = c("lorem ipsum");
    let fetched = read_string(Some(&buffer));
    assert!(fetched.release);
    assert_eq!(fetched.result.unwrap(), Some("lorem ipsum".to_string()));
}

#[test]
fn read_string_of_an_empty_buffer_is_the_empty_text() {
    let buffer = c("");
    let fetched = read_string(Some(&buffer));
    assert!(fetched.release);
    assert_eq!(fetched.result.unwrap(), Some(String::new()));
}

#[test]
fn read_string_asks_for_release_when_decoding_fails() {
    let buffer = raw(&[b'a', 0xff]);
    let fetched = read_string(Some(&buffer));
    assert!(fetched.release);
    match fetched.result {
        Err(Error::StringDecoding { value, source }) => {
            assert_eq!(value.as_bytes(), &[b'a', 0xff]);
            assert_eq!(source.valid_up_to(), 1);
        }
        other => panic!("unexpected: {:?}", other),
    }
}

#[test]
fn read_string_array_of_no_structure_is_no_value() {
    let fetched = read_string_array(None);
    assert!(!fetched.release);
    assert_eq!(fetched.result.unwrap(), None);
}

#[test]
fn read_string_array_decodes_in_order_and_asks_for_release() {
    let buffers = vec![c("one"), c("two"), c("three")];
    let fetched = read_string_array(Some(&buffers));
    assert!(fetched.release);
    assert_eq!(
        fetched.result.unwrap(),
        Some(vec!["one".to_string(), "two".to_string(), "three".to_string()])
    );
}

#[test]
fn read_string_array_of_an_empty_structure_is_the_empty_list() {
    let buffers: Vec<CString> = Vec::new();
    let fetched = read_string_array(Some(&buffers));
    assert!(fetched.release);
    assert_eq!(fetched.result.unwrap(), Some(Vec::<String>::new()));
}

#[test]
fn read_string_array_stops_at_the_first_buffer_that_is_not_utf8() {
    let buffers = vec![c("one"), raw(&[0xc3]), raw(&[0xff, 0xff]), c("four")];
    let fetched = read_string_array(Some(&buffers));
    assert!(fetched.release);
    match fetched.result {
        Err(Error::StringDecoding { value, source }) => {
            assert_eq!(value.as_bytes(), &[0xc3]);
            assert_eq!(source, std::str::from_utf8(&[0xc3]).unwrap_err());
        }
        other => panic!("unexpected: {:?}", other),
    }
    let buffers = vec![c("one"), c("two"), raw(&[b'x', 0x80])];
    let fetched = read_string_array(Some(&buffers));
    assert!(fetched.release);
    match fetched.result {
        Err(Error::StringDecoding { value, source }) => {
            assert_eq!(value.as_bytes(), &[b'x', 0x80]);
            assert_eq!(source.valid_up_to(), 1);
        }
        other => panic!("unexpected: {:?}", other),
    }
}

//! The native store as the accessors take it to be, and what follows for a
//! caller who writes a value and reads it back.
//!
//! The store itself is out of the library's hands. It is taken to hold at
//! most one value under each key, to answer a question about a key with the
//! value last written under it, and to report absence where the key holds
//! nothing or a value of another kind. The statements below are about the
//! accessors on such a store.

use crate::accessor::{
    decoded_all, encoded_all, fetched_string, fetched_string_array, get_f64_call, get_i64_call,
    get_string_array_call, get_string_call, lemma_decoded_all_ok, lemma_encoded_all_first_error,
    lemma_encoded_all_ok, present_value, set_f64_call, set_i64_call, set_string_array_call,
    set_string_call,
};
use crate::cstring::{encoded, lemma_decoded_encoded, nul_free};
use crate::error::ErrorView;
use crate::native::{CallView, DoubleReply, LongReply};
use vstd::prelude::*;
use vstd::utf8::{decode_utf8, encode_utf8, valid_utf8};

verus! {

/// What the store holds under one key.
pub enum Entry {
    Long(i64),
    /// A 64-bit float, by its bit pattern.
    Double(u64),
    String(Seq<u8>),
    StringArray(Seq<Seq<u8>>),
}

/// The store's contents, by key.
pub type Store = Map<Seq<u8>, Entry>;

/// The store after `call` was made on `store`.
pub open spec fn after(store: Store, call: CallView) -> Store {
    match call {
        CallView::SetLong { key, value } => store.insert(key, Entry::Long(value)),
        CallView::SetDouble { key, bits } => store.insert(key, Entry::Double(bits)),
        CallView::SetString { key, value } => store.insert(key, Entry::String(value)),
        CallView::SetStringArray { key, values } => store.insert(key, Entry::StringArray(values)),
        _ => store,
    }
}

/// The store's answer when asked for the integer under `key`.
pub open spec fn long_reply(store: Store, key: Seq<u8>) -> LongReply {
    if store.contains_key(key) && store[key] is Long {
        LongReply { present: true, value: store[key]->Long_0 }
    } else {
        LongReply { present: false, value: 0 }
    }
}

/// The store's answer when asked for the float under `key`.
pub open spec fn double_reply(store: Store, key: Seq<u8>) -> DoubleReply {
    if store.contains_key(key) && store[key] is Double {
        DoubleReply { present: true, bits: store[key]->Double_0 }
    } else {
        DoubleReply { present: false, bits: 0 }
    }
}

/// The content of the buffer that the store hands over when asked for the
/// text under `key`, if it hands one over.
pub open spec fn string_reply(store: Store, key: Seq<u8>) -> Option<Seq<u8>> {
    if store.contains_key(key) && store[key] is String {
        Some(store[key]->String_0)
    } else {
        None
    }
}

/// The contents of the buffers that the store hands over when asked for the
/// list of texts under `key`, if it hands any over.
pub open spec fn string_array_reply(store: Store, key: Seq<u8>) -> Option<Seq<Seq<u8>>> {
    if store.contains_key(key) && store[key] is StringArray {
        Some(store[key]->StringArray_0)
    } else {
        None
    }
}

/// What a write leaves behind: the store after the call, where there was
/// one, and the accessor's result.
pub open spec fn written(store: Store, call: Result<CallView, ErrorView>) -> (
    Store,
    Result<(), ErrorView>,
) {
    match call {
        Ok(call) => (after(store, call), Ok(())),
        Err(error) => (store, Err(error)),
    }
}

/// `set_i64` on `store`: the store afterwards and the result.
pub open spec fn set_i64_on(store: Store, key: Seq<char>, value: i64) -> (
    Store,
    Result<(), ErrorView>,
) {
    written(store, set_i64_call(key, value))
}

/// `set_f64` on `store`: the store afterwards and the result.
pub open spec fn set_f64_on(store: Store, key: Seq<char>, bits: u64) -> (
    Store,
    Result<(), ErrorView>,
) {
    written(store, set_f64_call(key, bits))
}

/// `set_string` on `store`: the store afterwards and the result.
pub open spec fn set_string_on(store: Store, key: Seq<char>, value: Seq<char>) -> (
    Store,
    Result<(), ErrorView>,
) {
    written(store, set_string_call(key, value))
}

/// `set_string_array` on `store`: the store afterwards and the result.
pub open spec fn set_string_array_on(store: Store, key: Seq<char>, values: Seq<Seq<char>>) -> (
    Store,
    Result<(), ErrorView>,
) {
    written(store, set_string_array_call(key, values))
}

/// `get_i64`, then `read_i64` of the store's answer.
pub open spec fn get_i64_on(store: Store, key: Seq<char>) -> Result<Option<i64>, ErrorView> {
    match get_i64_call(key) {
        Ok(call) => {
            let reply = long_reply(store, call->GetLong_key);
            Ok(present_value(reply.present, reply.value))
        },
        Err(error) => Err(error),
    }
}

/// `get_f64`, then `read_f64` of the store's answer.
pub open spec fn get_f64_on(store: Store, key: Seq<char>) -> Result<Option<u64>, ErrorView> {
    match get_f64_call(key) {
        Ok(call) => {
            let reply = double_reply(store, call->GetDouble_key);
            Ok(present_value(reply.present, reply.bits))
        },
        Err(error) => Err(error),
    }
}

/// `get_string`, then `read_string` of the store's answer.
pub open spec fn get_string_on(store: Store, key: Seq<char>) -> Result<
    Option<Seq<char>>,
    ErrorView,
> {
    match get_string_call(key) {
        Ok(call) => fetched_string(string_reply(store, call->GetString_key)).result,
        Err(error) => Err(error),
    }
}

/// `get_string_array`, then `read_string_array` of the store's answer.
pub open spec fn get_string_array_on(store: Store, key: Seq<char>) -> Result<
    Option<Seq<Seq<char>>>,
    ErrorView,
> {
    match get_string_array_call(key) {
        Ok(call) => fetched_string_array(
            string_array_reply(store, call->GetStringArray_key),
        ).result,
        Err(error) => Err(error),
    }
}

/// A list of texts without the nul character is encoded, and decodes to
/// itself.
pub proof fn lemma_decoded_all_encoded_all(values: Seq<Seq<char>>)
    requires
        forall|i: int| 0 <= i < values.len() ==> nul_free(#[trigger] values[i]),
    ensures
        encoded_all(values) is Ok,
        decoded_all(encoded_all(values)->Ok_0) == Ok::<Seq<Seq<char>>, ErrorView>(values),
{
    let buffers = Seq::new(values.len(), |i: int| encode_utf8(values[i]));
    assert forall|i: int| 0 <= i < buffers.len() implies valid_utf8(#[trigger] buffers[i])
        && decode_utf8(buffers[i]) == values[i] by {
        lemma_decoded_encoded(values[i]);
    }
    lemma_encoded_all_ok(values);
    lemma_decoded_all_ok(buffers);
    assert(Seq::new(buffers.len(), |i: int| decode_utf8(buffers[i])) =~= values);
}

/// An integer written under a key is the integer read under that key, zero
/// too.
pub proof fn lemma_i64_round_trip(store: Store, key: Seq<char>, value: i64)
    requires
        nul_free(key),
    ensures
        set_i64_on(store, key, value).1 is Ok,
        get_i64_on(set_i64_on(store, key, value).0, key) == Ok::<Option<i64>, ErrorView>(
            Some(value),
        ),
{
}

/// A float written under a key is read under that key bit for bit.
pub proof fn lemma_f64_round_trip(store: Store, key: Seq<char>, bits: u64)
    requires
        nul_free(key),
    ensures
        set_f64_on(store, key, bits).1 is Ok,
        get_f64_on(set_f64_on(store, key, bits).0, key) == Ok::<Option<u64>, ErrorView>(
            Some(bits),
        ),
{
}

/// A text written under a key is the text read under that key, the empty
/// text too.
pub proof fn lemma_string_round_trip(store: Store, key: Seq<char>, value: Seq<char>)
    requires
        nul_free(key),
        nul_free(value),
    ensures
        set_string_on(store, key, value).1 is Ok,
        get_string_on(set_string_on(store, key, value).0, key) == Ok::<
            Option<Seq<char>>,
            ErrorView,
        >(Some(value)),
{
    lemma_decoded_encoded(value);
}

/// A list of texts written under a key is the list read under that key, in
/// the same order.
pub proof fn lemma_string_array_round_trip(store: Store, key: Seq<char>, values: Seq<Seq<char>>)
    requires
        nul_free(key),
        forall|i: int| 0 <= i < values.len() ==> nul_free(#[trigger] values[i]),
    ensures
        set_string_array_on(store, key, values).1 is Ok,
        get_string_array_on(set_string_array_on(store, key, values).0, key) == Ok::<
            Option<Seq<Seq<char>>>,
            ErrorView,
        >(Some(values)),
{
    lemma_decoded_all_encoded_all(values);
}

/// Under a key that holds nothing every read finds no value, and none
/// fails.
pub proof fn lemma_absent(store: Store, key: Seq<char>)
    requires
        nul_free(key),
        !store.contains_key(encode_utf8(key)),
    ensures
        get_i64_on(store, key) == Ok::<Option<i64>, ErrorView>(None),
        get_f64_on(store, key) == Ok::<Option<u64>, ErrorView>(None),
        get_string_on(store, key) == Ok::<Option<Seq<char>>, ErrorView>(None),
        get_string_array_on(store, key) == Ok::<Option<Seq<Seq<char>>>, ErrorView>(None),
{
}

/// With a key that holds the nul character every accessor fails with the
/// error that carries the key, and no call is made: a write leaves the store
/// as it was.
pub proof fn lemma_key_rejected(store: Store, key: Seq<char>)
    requires
        !nul_free(key),
    ensures
        ({
            let error = encoded(key)->Err_0;
            &&& encoded(key) is Err
            &&& error matches ErrorView::StringEncoding { value, .. } && value == key
            &&& get_i64_call(key) == Err::<CallView, ErrorView>(error)
            &&& get_f64_call(key) == Err::<CallView, ErrorView>(error)
            &&& get_string_call(key) == Err::<CallView, ErrorView>(error)
            &&& get_string_array_call(key) == Err::<CallView, ErrorView>(error)
            &&& get_i64_on(store, key) == Err::<Option<i64>, ErrorView>(error)
            &&& get_f64_on(store, key) == Err::<Option<u64>, ErrorView>(error)
            &&& get_string_on(store, key) == Err::<Option<Seq<char>>, ErrorView>(error)
            &&& get_string_array_on(store, key) == Err::<Option<Seq<Seq<char>>>, ErrorView>(error)
            &&& forall|value: i64| #[trigger]
                set_i64_on(store, key, value) == (store, Err::<(), ErrorView>(error))
            &&& forall|bits: u64| #[trigger]
                set_f64_on(store, key, bits) == (store, Err::<(), ErrorView>(error))
            &&& forall|value: Seq<char>| #[trigger]
                set_string_on(store, key, value) == (store, Err::<(), ErrorView>(error))
            &&& forall|values: Seq<Seq<char>>| #[trigger]
                set_string_array_on(store, key, values) == (store, Err::<(), ErrorView>(error))
        }),
{
}

/// A write of a text that holds the nul character fails with the error that
/// carries the text, and leaves the store as it was.
pub proof fn lemma_value_rejected(store: Store, key: Seq<char>, value: Seq<char>)
    requires
        nul_free(key),
        !nul_free(value),
    ensures
        ({
            let error = encoded(value)->Err_0;
            &&& encoded(value) is Err
            &&& error matches ErrorView::StringEncoding { value: carried, .. } && carried == value
            &&& set_string_on(store, key, value) == (store, Err::<(), ErrorView>(error))
        }),
{
}

/// A write of a list fails with the error that carries the first of its
/// texts that holds the nul character, and leaves the store as it was.
pub proof fn lemma_values_rejected(
    store: Store,
    key: Seq<char>,
    values: Seq<Seq<char>>,
    first: int,
)
    requires
        nul_free(key),
        0 <= first < values.len(),
        !nul_free(values[first]),
        forall|i: int| 0 <= i < first ==> nul_free(#[trigger] values[i]),
    ensures
        ({
            let error = encoded(values[first])->Err_0;
            &&& encoded(values[first]) is Err
            &&& error matches ErrorView::StringEncoding { value: carried, .. } && carried
                == values[first]
            &&& set_string_array_on(store, key, values) == (store, Err::<(), ErrorView>(error))
        }),
{
    lemma_encoded_all_first_error(values, first);
}

/// Making the same call twice leaves the store as making it once does.
pub proof fn lemma_call_twice(store: Store, call: CallView)
    ensures
        after(after(store, call), call) == after(store, call),
{
}

/// Writing the same text twice under a key leaves the store as writing it
/// once does, and the text is then read as it was written.
pub proof fn lemma_string_written_twice(store: Store, key: Seq<char>, value: Seq<char>)
    requires
        nul_free(key),
        nul_free(value),
    ensures
        ({
            let once = set_string_on(store, key, value).0;
            let twice = set_string_on(once, key, value).0;
            &&& twice == once
            &&& get_string_on(twice, key) == Ok::<Option<Seq<char>>, ErrorView>(Some(value))
        }),
{
    lemma_decoded_encoded(value);
}

/// Writing the same integer twice under a key leaves the store as writing it
/// once does, and the integer is then read as it was written.
pub proof fn lemma_i64_written_twice(store: Store, key: Seq<char>, value: i64)
    requires
        nul_free(key),
    ensures
        ({
            let once = set_i64_on(store, key, value).0;
            let twice = set_i64_on(once, key, value).0;
            &&& twice == once
            &&& get_i64_on(twice, key) == Ok::<Option<i64>, ErrorView>(Some(value))
        }),
{
}

} // verus!

//! The eight accessors, each split where the native store is entered.
//!
//! `get_*` and `set_*` validate and encode their arguments and name the
//! call to make; they fail before anything reaches the store. `read_*` take
//! what the store answered to a `get_*` call and give the accessor's result.

use crate::cstring::{decoded, encoded, nul_free, to_cstring, to_rust_str, utf8_error, CString};
use crate::error::{agrees, Error, ErrorView};
use crate::native::{Call, CallView, DoubleReply, LongReply};
use vstd::prelude::*;
use vstd::utf8::{decode_utf8, encode_utf8, valid_utf8};

verus! {

/// What an accessor makes of a native buffer that may have been handed over.
#[derive(Debug)]
pub struct Fetched<T> {
    /// Whether a buffer was handed over. If so, it has to be released, in
    /// one call, before `result` is passed on.
    pub release: bool,
    /// What the accessor returns.
    pub result: Result<Option<T>, Error>,
}

/// A [`Fetched`] as a mathematical value.
pub struct FetchedView<V> {
    pub release: bool,
    pub result: Result<Option<V>, ErrorView>,
}

impl<T: DeepView> DeepView for Fetched<T> {
    type V = FetchedView<T::V>;

    open spec fn deep_view(&self) -> FetchedView<T::V> {
        FetchedView {
            release: self.release,
            result: match self.result {
                Ok(value) => Ok(value.deep_view()),
                Err(error) => Err(error@),
            },
        }
    }
}

/// The call for the integer stored under `key`.
pub open spec fn get_i64_call(key: Seq<char>) -> Result<CallView, ErrorView> {
    match encoded(key) {
        Ok(key) => Ok(CallView::GetLong { key }),
        Err(error) => Err(error),
    }
}

/// The call that stores the integer `value` under `key`.
pub open spec fn set_i64_call(key: Seq<char>, value: i64) -> Result<CallView, ErrorView> {
    match encoded(key) {
        Ok(key) => Ok(CallView::SetLong { key, value }),
        Err(error) => Err(error),
    }
}

/// The call for the float stored under `key`.
pub open spec fn get_f64_call(key: Seq<char>) -> Result<CallView, ErrorView> {
    match encoded(key) {
        Ok(key) => Ok(CallView::GetDouble { key }),
        Err(error) => Err(error),
    }
}

/// The call that stores the float with the bit pattern `bits` under `key`.
pub open spec fn set_f64_call(key: Seq<char>, bits: u64) -> Result<CallView, ErrorView> {
    match encoded(key) {
        Ok(key) => Ok(CallView::SetDouble { key, bits }),
        Err(error) => Err(error),
    }
}

/// The call for the text stored under `key`.
pub open spec fn get_string_call(key: Seq<char>) -> Result<CallView, ErrorView> {
    match encoded(key) {
        Ok(key) => Ok(CallView::GetString { key }),
        Err(error) => Err(error),
    }
}

/// The call that stores the text `value` under `key`. The key is encoded
/// first, so where neither can be encoded the error is the key's.
pub open spec fn set_string_call(key: Seq<char>, value: Seq<char>) -> Result<CallView, ErrorView> {
    match encoded(key) {
        Ok(key) => match encoded(value) {
            Ok(value) => Ok(CallView::SetString { key, value }),
            Err(error) => Err(error),
        },
        Err(error) => Err(error),
    }
}

/// The call for the list of texts stored under `key`.
pub open spec fn get_string_array_call(key: Seq<char>) -> Result<CallView, ErrorView> {
    match encoded(key) {
        Ok(key) => Ok(CallView::GetStringArray { key }),
        Err(error) => Err(error),
    }
}

/// The encodings of `values`, in order, or the error of the first of them
/// that cannot be encoded.
pub open spec fn encoded_all(values: Seq<Seq<char>>) -> Result<Seq<Seq<u8>>, ErrorView>
    decreases values.len(),
{
    if values.len() == 0 {
        Ok(Seq::empty())
    } else {
        match encoded_all(values.drop_last()) {
            Ok(front) => match encoded(values.last()) {
                Ok(last) => Ok(front.push(last)),
                Err(error) => Err(error),
            },
            Err(error) => Err(error),
        }
    }
}

/// The call that stores the list `values` under `key`. The key is encoded
/// first, then the values in order; the first failure is the error.
pub open spec fn set_string_array_call(key: Seq<char>, values: Seq<Seq<char>>) -> Result<
    CallView,
    ErrorView,
> {
    match encoded(key) {
        Ok(key) => match encoded_all(values) {
            Ok(values) => Ok(CallView::SetStringArray { key, values }),
            Err(error) => Err(error),
        },
        Err(error) => Err(error),
    }
}

/// What the accessor returns for a scalar that the store answered with.
pub open spec fn present_value<T>(present: bool, value: T) -> Option<T> {
    if present {
        Some(value)
    } else {
        None
    }
}

/// What the accessor makes of the answer to a read of a text: no value
/// where the store handed no buffer over; else the text that the buffer
/// encodes, or the error that carries the buffer's content, and in both
/// cases the demand to release the buffer.
pub open spec fn fetched_string(buffer: Option<Seq<u8>>) -> FetchedView<Seq<char>> {
    match buffer {
        None => FetchedView { release: false, result: Ok(None) },
        Some(bytes) => FetchedView {
            release: true,
            result: match decoded(bytes) {
                Ok(text) => Ok(Some(text)),
                Err(error) => Err(error),
            },
        },
    }
}

/// The texts that `buffers` encode, in order, or the error of the first of
/// them that is not UTF-8.
pub open spec fn decoded_all(buffers: Seq<Seq<u8>>) -> Result<Seq<Seq<char>>, ErrorView>
    decreases buffers.len(),
{
    if buffers.len() == 0 {
        Ok(Seq::empty())
    } else {
        match decoded_all(buffers.drop_last()) {
            Ok(front) => match decoded(buffers.last()) {
                Ok(last) => Ok(front.push(last)),
                Err(error) => Err(error),
            },
            Err(error) => Err(error),
        }
    }
}

/// What the accessor makes of the answer to a read of a list of texts: no
/// value where the store handed no structure over; else the texts that its
/// buffers encode, or the error of the first buffer that is not UTF-8, and
/// in both cases the demand to release the structure.
pub open spec fn fetched_string_array(buffers: Option<Seq<Seq<u8>>>) -> FetchedView<
    Seq<Seq<char>>,
> {
    match buffers {
        None => FetchedView { release: false, result: Ok(None) },
        Some(buffers) => FetchedView {
            release: true,
            result: match decoded_all(buffers) {
                Ok(texts) => Ok(Some(texts)),
                Err(error) => Err(error),
            },
        },
    }
}

/// An error among the first `n` of `values` is the error of them all.
pub proof fn lemma_encoded_all_prefix(values: Seq<Seq<char>>, n: int)
    requires
        0 <= n <= values.len(),
        encoded_all(values.take(n)) is Err,
    ensures
        encoded_all(values) == encoded_all(values.take(n)),
    decreases values.len() - n,
{
    if n < values.len() {
        assert(values.drop_last().take(n) =~= values.take(n));
        lemma_encoded_all_prefix(values.drop_last(), n);
    } else {
        assert(values.take(n) =~= values);
    }
}

/// An error among the first `n` of `buffers` is the error of them all.
pub proof fn lemma_decoded_all_prefix(buffers: Seq<Seq<u8>>, n: int)
    requires
        0 <= n <= buffers.len(),
        decoded_all(buffers.take(n)) is Err,
    ensures
        decoded_all(buffers) == decoded_all(buffers.take(n)),
    decreases buffers.len() - n,
{
    if n < buffers.len() {
        assert(buffers.drop_last().take(n) =~= buffers.take(n));
        lemma_decoded_all_prefix(buffers.drop_last(), n);
    } else {
        assert(buffers.take(n) =~= buffers);
    }
}

/// Texts that can all be encoded are encoded one by one, in order.
pub proof fn lemma_encoded_all_ok(values: Seq<Seq<char>>)
    requires
        forall|j: int| 0 <= j < values.len() ==> encoded(#[trigger] values[j]) is Ok,
    ensures
        encoded_all(values) == Ok::<Seq<Seq<u8>>, ErrorView>(
            Seq::new(values.len(), |j: int| encode_utf8(values[j])),
        ),
    decreases values.len(),
{
    if values.len() > 0 {
        lemma_encoded_all_ok(values.drop_last());
        assert(Seq::new(values.len(), |j: int| encode_utf8(values[j])) =~= Seq::new(
            values.drop_last().len(),
            |j: int| encode_utf8(values.drop_last()[j]),
        ).push(encode_utf8(values.last())));
    } else {
        assert(Seq::new(values.len(), |j: int| encode_utf8(values[j])) =~= Seq::<
            Seq<u8>,
        >::empty());
    }
}

/// The first text that cannot be encoded gives the error of the list.
pub proof fn lemma_encoded_all_first_error(values: Seq<Seq<char>>, i: int)
    requires
        0 <= i < values.len(),
        encoded(values[i]) is Err,
        forall|j: int| 0 <= j < i ==> encoded(#[trigger] values[j]) is Ok,
    ensures
        encoded_all(values) == Err::<Seq<Seq<u8>>, ErrorView>(encoded(values[i])->Err_0),
{
    lemma_encoded_all_ok(values.take(i));
    assert(values.take(i + 1).drop_last() =~= values.take(i));
    lemma_encoded_all_prefix(values, i + 1);
}

/// Buffers that are all UTF-8 are decoded one by one, in order.
pub proof fn lemma_decoded_all_ok(buffers: Seq<Seq<u8>>)
    requires
        forall|j: int| 0 <= j < buffers.len() ==> valid_utf8(#[trigger] buffers[j]),
    ensures
        decoded_all(buffers) == Ok::<Seq<Seq<char>>, ErrorView>(
            Seq::new(buffers.len(), |j: int| decode_utf8(buffers[j])),
        ),
    decreases buffers.len(),
{
    if buffers.len() > 0 {
        lemma_decoded_all_ok(buffers.drop_last());
        assert(Seq::new(buffers.len(), |j: int| decode_utf8(buffers[j])) =~= Seq::new(
            buffers.drop_last().len(),
            |j: int| decode_utf8(buffers.drop_last()[j]),
        ).push(decode_utf8(buffers.last())));
    } else {
        assert(Seq::new(buffers.len(), |j: int| decode_utf8(buffers[j])) =~= Seq::<
            Seq<char>,
        >::empty());
    }
}

/// The first buffer that is not UTF-8 gives the error of the list.
pub proof fn lemma_decoded_all_first_error(buffers: Seq<Seq<u8>>, i: int)
    requires
        0 <= i < buffers.len(),
        !valid_utf8(buffers[i]),
        forall|j: int| 0 <= j < i ==> valid_utf8(#[trigger] buffers[j]),
    ensures
        decoded_all(buffers) == Err::<Seq<Seq<char>>, ErrorView>(
            ErrorView::StringDecoding { value: buffers[i], source: utf8_error(buffers[i]) },
        ),
{
    lemma_decoded_all_ok(buffers.take(i));
    assert(buffers.take(i + 1).drop_last() =~= buffers.take(i));
    lemma_decoded_all_prefix(buffers, i + 1);
}

/// A buffer, or a structure of buffers, is to be released exactly if one
/// was handed over, whatever it holds.
pub proof fn lemma_release_iff_handed(buffer: Option<Seq<u8>>, buffers: Option<Seq<Seq<u8>>>)
    ensures
        fetched_string(buffer).release <==> buffer is Some,
        fetched_string_array(buffers).release <==> buffers is Some,
{
}

/// A buffer that is not UTF-8 gives the error that carries its content, and
/// is to be released all the same.
pub proof fn lemma_string_not_decoded(bytes: Seq<u8>)
    requires
        !valid_utf8(bytes),
    ensures
        fetched_string(Some(bytes)) == (FetchedView::<Seq<char>> {
            release: true,
            result: Err(ErrorView::StringDecoding { value: bytes, source: utf8_error(bytes) }),
        }),
{
}

/// A structure with a buffer that is not UTF-8 gives the error that carries
/// the content of the first such buffer, and is to be released all the same.
pub proof fn lemma_string_array_not_decoded(buffers: Seq<Seq<u8>>, i: int)
    requires
        0 <= i < buffers.len(),
        !valid_utf8(buffers[i]),
        forall|j: int| 0 <= j < i ==> valid_utf8(#[trigger] buffers[j]),
    ensures
        fetched_string_array(Some(buffers)) == (FetchedView::<Seq<Seq<char>>> {
            release: true,
            result: Err(
                ErrorView::StringDecoding { value: buffers[i], source: utf8_error(buffers[i]) },
            ),
        }),
{
    lemma_decoded_all_first_error(buffers, i);
}

/// Names the call for the integer stored under `key`.
pub fn get_i64(key: &str) -> (r: Result<Call, Error>)
    ensures
        r is Ok <==> nul_free(key@),
        agrees(r, get_i64_call(key@)),
{
    match to_cstring(key) {
        Ok(key) => Ok(Call::GetLong { key }),
        Err(error) => Err(error),
    }
}

/// Reads the answer to a [`get_i64`] call.
pub fn read_i64(reply: LongReply) -> (r: Option<i64>)
    ensures
        r == present_value(reply.present, reply.value),
{
    if reply.present {
        Some(reply.value)
    } else {
        None
    }
}

/// Names the call that stores the integer `value` under `key`.
pub fn set_i64(key: &str, value: i64) -> (r: Result<Call, Error>)
    ensures
        r is Ok <==> nul_free(key@),
        agrees(r, set_i64_call(key@, value)),
{
    match to_cstring(key) {
        Ok(key) => Ok(Call::SetLong { key, value }),
        Err(error) => Err(error),
    }
}

/// Names the call for the float stored under `key`.
pub fn get_f64(key: &str) -> (r: Result<Call, Error>)
    ensures
        r is Ok <==> nul_free(key@),
        agrees(r, get_f64_call(key@)),
{
    match to_cstring(key) {
        Ok(key) => Ok(Call::GetDouble { key }),
        Err(error) => Err(error),
    }
}

/// Reads the answer to a [`get_f64`] call; the result is the bit pattern of
/// the float.
pub fn read_f64(reply: DoubleReply) -> (r: Option<u64>)
    ensures
        r == present_value(reply.present, reply.bits),
{
    if reply.present {
        Some(reply.bits)
    } else {
        None
    }
}

/// Names the call that stores the float with the bit pattern `bits` under
/// `key`.
pub fn set_f64(key: &str, bits: u64) -> (r: Result<Call, Error>)
    ensures
        r is Ok <==> nul_free(key@),
        agrees(r, set_f64_call(key@, bits)),
{
    match to_cstring(key) {
        Ok(key) => Ok(Call::SetDouble { key, bits }),
        Err(error) => Err(error),
    }
}

/// Names the call for the text stored under `key`.
pub fn get_string(key: &str) -> (r: Result<Call, Error>)
    ensures
        r is Ok <==> nul_free(key@),
        agrees(r, get_string_call(key@)),
{
    match to_cstring(key) {
        Ok(key) => Ok(Call::GetString { key }),
        Err(error) => Err(error),
    }
}

/// Reads the answer to a [`get_string`] call: `None` where the store
/// answered with a null pointer, else the buffer that it handed over.
///
/// The buffer is to be released whether or not it decodes.
pub fn read_string(buffer: Option<&CString>) -> (fetched: Fetched<String>)
    ensures
        fetched.release <==> buffer is Some,
        fetched.deep_view() == fetched_string(buffer.deep_view()),
{
    match buffer {
        None => Fetched { release: false, result: Ok(None) },
        Some(buffer) => match to_rust_str(buffer) {
            Ok(text) => Fetched { release: true, result: Ok(Some(text.to_owned())) },
            Err(error) => Fetched { release: true, result: Err(error) },
        },
    }
}

/// Names the call that stores the text `value` under `key`.
pub fn set_string(key: &str, value: &str) -> (r: Result<Call, Error>)
    ensures
        r is Ok <==> nul_free(key@) && nul_free(value@),
        agrees(r, set_string_call(key@, value@)),
{
    let key = match to_cstring(key) {
        Ok(key) => key,
        Err(error) => {
            return Err(error);
        },
    };
    match to_cstring(value) {
        Ok(value) => Ok(Call::SetString { key, value }),
        Err(error) => Err(error),
    }
}

/// Names the call for the list of texts stored under `key`.
pub fn get_string_array(key: &str) -> (r: Result<Call, Error>)
    ensures
        r is Ok <==> nul_free(key@),
        agrees(r, get_string_array_call(key@)),
{
    match to_cstring(key) {
        Ok(key) => Ok(Call::GetStringArray { key }),
        Err(error) => Err(error),
    }
}

/// Reads the answer to a [`get_string_array`] call: `None` where the store
/// answered with a null pointer, else the buffers of the structure that it
/// handed over, in order.
///
/// The structure is to be released as a whole, whether or not every buffer
/// decodes.
pub fn read_string_array(buffers: Option<&Vec<CString>>) -> (fetched: Fetched<Vec<String>>)
    ensures
        fetched.release <==> buffers is Some,
        fetched.deep_view() == fetched_string_array(buffers.deep_view()),
{
    let handed = match buffers {
        None => {
            return Fetched { release: false, result: Ok(None) };
        },
        Some(handed) => handed,
    };
    let mut values: Vec<String> = Vec::new();
    let mut i: usize = 0;
    proof {
        assert(values.deep_view() =~= Seq::<Seq<char>>::empty());
    }
    while i < handed.len()
        invariant
            buffers == Some(handed),
            i <= handed.len(),
            decoded_all(handed.deep_view().take(i as int)) == Ok::<Seq<Seq<char>>, ErrorView>(
                values.deep_view(),
            ),
        decreases handed.len() - i,
    {
        proof {
            let next = handed.deep_view().take(i + 1);
            assert(next.drop_last() =~= handed.deep_view().take(i as int));
        }
        match to_rust_str(&handed[i]) {
            Ok(text) => {
                let ghost before = values.deep_view();
                values.push(text.to_owned());
                assert(values.deep_view() =~= before.push(text@));
            },
            Err(error) => {
                proof {
                    lemma_decoded_all_prefix(handed.deep_view(), i + 1);
                }
                return Fetched { release: true, result: Err(error) };
            },
        }
        i += 1;
    }
    proof {
        assert(handed.deep_view().take(i as int) =~= handed.deep_view());
    }
    Fetched { release: true, result: Ok(Some(values)) }
}

/// Names the call that stores the list `values` under `key`.
pub fn set_string_array(key: &str, values: &[&str]) -> (r: Result<Call, Error>)
    ensures
        r is Ok <==> nul_free(key@) && forall|i: int|
            0 <= i < values@.len() ==> nul_free(#[trigger] values@[i]@),
        agrees(r, set_string_array_call(key@, values.deep_view())),
{
    let c_key = match to_cstring(key) {
        Ok(c_key) => c_key,
        Err(error) => {
            return Err(error);
        },
    };
    let mut c_values: Vec<CString> = Vec::new();
    let mut i: usize = 0;
    proof {
        assert(c_values.deep_view() =~= Seq::<Seq<u8>>::empty());
    }
    while i < values.len()
        invariant
            nul_free(key@),
            encoded(key@) == Ok::<Seq<u8>, ErrorView>(c_key@),
            i <= values.len(),
            forall|j: int| 0 <= j < i ==> nul_free(#[trigger] values@[j]@),
            encoded_all(values.deep_view().take(i as int)) == Ok::<Seq<Seq<u8>>, ErrorView>(
                c_values.deep_view(),
            ),
        decreases values.len() - i,
    {
        proof {
            let next = values.deep_view().take(i + 1);
            assert(next.drop_last() =~= values.deep_view().take(i as int));
        }
        match to_cstring(values[i]) {
            Ok(c_value) => {
                let ghost before = c_values.deep_view();
                c_values.push(c_value);
                assert(c_values.deep_view() =~= before.push(c_value@));
            },
            Err(error) => {
                proof {
                    lemma_encoded_all_prefix(values.deep_view(), i + 1);
                }
                return Err(error);
            },
        }
        i += 1;
    }
    proof {
        assert(values.deep_view().take(i as int) =~= values.deep_view());
    }
    Ok(Call::SetStringArray { key: c_key, values: c_values })
}

} // verus!

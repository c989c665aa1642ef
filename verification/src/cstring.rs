//! Nul-terminated byte strings, the form in which keys and text cross the
//! native boundary, and the conversions between them and Rust text.

use crate::error::{agrees, Error, ErrorView, NulError};
use core::str::Utf8Error;
use vstd::prelude::*;
use vstd::slice::slice_subrange;
use vstd::string::{StrSliceExecFns, StringSliceAdditionalSpecFns};
use vstd::utf8::{
    char_is_scalar, char_u32_cast, decode_utf8, encode_scalar, encode_utf8,
    encode_utf8_decode_utf8, encode_utf8_valid_utf8, valid_utf8,
};

verus! {

/// `core::str::Utf8Error`, which says where a byte string stops being UTF-8.
/// The library looks at nothing in it: it carries the error from
/// `core::str::from_utf8` to the caller.
#[verifier::external_type_specification]
#[verifier::external_body]
pub struct ExUtf8Error(Utf8Error);

/// The error with which `core::str::from_utf8` rejects `bytes`.
pub uninterp spec fn utf8_error(bytes: Seq<u8>) -> Utf8Error;

/// What is taken on trust of `core::str::from_utf8`: it accepts exactly the
/// byte strings that are UTF-8, and hands them back as text, byte for byte;
/// what it rejects it rejects with an error that depends on the bytes alone.
pub assume_specification[ core::str::from_utf8 ](v: &[u8]) -> (r: Result<&str, Utf8Error>)
    ensures
        r is Ok <==> valid_utf8(v@),
        r matches Ok(s) ==> s.spec_bytes() == v@,
        r matches Err(e) ==> e == utf8_error(v@),
;

/// Whether `bytes` holds a nul byte.
pub open spec fn has_nul(bytes: Seq<u8>) -> bool {
    exists|i: int| 0 <= i < bytes.len() && bytes[i] == 0u8
}

/// Whether `position` is the index of the first nul byte of `bytes`.
pub open spec fn is_first_nul(bytes: Seq<u8>, position: int) -> bool {
    &&& 0 <= position < bytes.len()
    &&& bytes[position] == 0u8
    &&& forall|i: int| 0 <= i < position ==> bytes[i] != 0u8
}

/// The index of the first nul byte of `bytes`, where there is one.
pub open spec fn first_nul(bytes: Seq<u8>) -> int {
    choose|position: int| is_first_nul(bytes, position)
}

/// Whether `value` holds no nul character.
pub open spec fn nul_free(value: Seq<char>) -> bool {
    !value.contains('\0')
}

/// What [`to_cstring`] makes of `value`: its UTF-8 encoding, or, where
/// `value` holds a nul character, the error that carries `value` and the
/// index of the first nul byte of the encoding.
pub open spec fn encoded(value: Seq<char>) -> Result<Seq<u8>, ErrorView> {
    if nul_free(value) {
        Ok(encode_utf8(value))
    } else {
        Err(
            ErrorView::StringEncoding {
                value,
                nul_position: first_nul(encode_utf8(value)) as nat,
            },
        )
    }
}

/// What [`to_rust_str`] makes of `bytes`: the text that they encode, or,
/// where they are not UTF-8, the error that carries them.
pub open spec fn decoded(bytes: Seq<u8>) -> Result<Seq<char>, ErrorView> {
    if valid_utf8(bytes) {
        Ok(decode_utf8(bytes))
    } else {
        Err(ErrorView::StringDecoding { value: bytes, source: utf8_error(bytes) })
    }
}

/// A byte string has at most one first nul byte.
pub proof fn lemma_first_nul(bytes: Seq<u8>, position: int)
    requires
        is_first_nul(bytes, position),
    ensures
        has_nul(bytes),
        first_nul(bytes) == position,
{
    let chosen = first_nul(bytes);
    assert(is_first_nul(bytes, chosen));
    if chosen < position {
        assert(bytes[chosen] != 0u8);
    } else if position < chosen {
        assert(bytes[position] != 0u8);
    }
}

/// A byte string with a nul byte at `i` has a first nul byte, at `i` or
/// before it.
pub proof fn lemma_first_nul_exists(bytes: Seq<u8>, i: int)
    requires
        0 <= i < bytes.len(),
        bytes[i] == 0u8,
    ensures
        is_first_nul(bytes, first_nul(bytes)),
        first_nul(bytes) <= i,
    decreases i,
{
    if exists|j: int| 0 <= j < i && bytes[j] == 0u8 {
        let j = choose|j: int| 0 <= j < i && bytes[j] == 0u8;
        lemma_first_nul_exists(bytes, j);
    } else {
        assert(is_first_nul(bytes, i));
        lemma_first_nul(bytes, i);
    }
}

/// No byte of the UTF-8 encoding of a scalar is nul, but the one byte that
/// encodes the scalar zero.
proof fn lemma_scalar_bytes(scalar: u32)
    by (bit_vector)
    ensures
        scalar <= 0x7F ==> (((scalar & 0x7F) as u8) == 0u8 <==> scalar == 0),
        (0xC0u8 | ((scalar >> 6) & 0x1F) as u8) != 0u8,
        (0xE0u8 | ((scalar >> 12) & 0x0F) as u8) != 0u8,
        (0xF0u8 | ((scalar >> 18) & 0x7) as u8) != 0u8,
        (0x80u8 | (scalar & 0x3F) as u8) != 0u8,
        (0x80u8 | ((scalar >> 6) & 0x3F) as u8) != 0u8,
        (0x80u8 | ((scalar >> 12) & 0x3F) as u8) != 0u8,
{
}

/// The UTF-8 encoding of a text holds a nul byte exactly if the text holds
/// the nul character.
pub proof fn lemma_nul_byte_iff_nul_char(value: Seq<char>)
    ensures
        has_nul(encode_utf8(value)) <==> !nul_free(value),
    decreases value.len(),
{
    if value.len() > 0 {
        let head = encode_scalar(value[0] as u32);
        let tail = encode_utf8(value.drop_first());
        let bytes = encode_utf8(value);
        lemma_nul_byte_iff_nul_char(value.drop_first());
        lemma_scalar_bytes(value[0] as u32);
        char_is_scalar(value[0]);
        assert(bytes == head + tail);
        assert(has_nul(head) <==> value[0] == '\0') by {
            if has_nul(head) {
                let i = choose|i: int| 0 <= i < head.len() && head[i] == 0u8;
                assert(value[0] as u32 == 0);
                char_u32_cast(value[0], 0u32);
            }
            if value[0] == '\0' {
                assert(head[0] == 0u8);
            }
        }
        if has_nul(bytes) {
            let i = choose|i: int| 0 <= i < bytes.len() && bytes[i] == 0u8;
            if i < head.len() {
                assert(head[i] == 0u8);
            } else {
                assert(tail[i - head.len()] == 0u8);
                let j = choose|j: int| 0 <= j < value.len() - 1 && value.drop_first()[j] == '\0';
                assert(value[j + 1] == '\0');
            }
        }
        if value.contains('\0') {
            let j = choose|j: int| 0 <= j < value.len() && value[j] == '\0';
            if j == 0 {
                let i = choose|i: int| 0 <= i < head.len() && head[i] == 0u8;
                assert(bytes[i] == 0u8);
            } else {
                assert(value.drop_first()[j - 1] == '\0');
                let i = choose|i: int| 0 <= i < tail.len() && tail[i] == 0u8;
                assert(bytes[head.len() + i] == 0u8);
            }
        }
    }
}

/// The error for a text with a nul character gives the index of the first
/// nul byte of the text's encoding.
pub proof fn lemma_encoding_error(value: Seq<char>)
    requires
        !nul_free(value),
    ensures
        encoded(value) matches Err(ErrorView::StringEncoding { value: carried, nul_position })
            && carried == value && is_first_nul(encode_utf8(value), nul_position as int),
{
    lemma_nul_byte_iff_nul_char(value);
    let bytes = encode_utf8(value);
    let i = choose|i: int| 0 <= i < bytes.len() && bytes[i] == 0u8;
    lemma_first_nul_exists(bytes, i);
}

/// Text that was encoded decodes to itself.
pub proof fn lemma_decoded_encoded(value: Seq<char>)
    ensures
        decoded(encode_utf8(value)) == Ok::<Seq<char>, ErrorView>(value),
{
    encode_utf8_valid_utf8(value);
    encode_utf8_decode_utf8(value);
}

/// An owned byte string that ends in a nul byte and holds no other.
///
/// Its view is the content, without the terminator.
#[derive(Debug)]
pub struct CString {
    bytes: Vec<u8>,
}

impl View for CString {
    type V = Seq<u8>;

    closed spec fn view(&self) -> Seq<u8> {
        self.bytes@.drop_last()
    }
}

impl DeepView for CString {
    type V = Seq<u8>;

    open spec fn deep_view(&self) -> Seq<u8> {
        self@
    }
}

impl CString {
    #[verifier::type_invariant]
    spec fn nul_terminated(&self) -> bool {
        &&& self.bytes@.len() > 0
        &&& self.bytes@.last() == 0u8
        &&& !has_nul(self.bytes@.drop_last())
    }

    /// Appends the terminator to `bytes`, unless `bytes` holds a nul byte
    /// already: then the error gives the place of the first.
    pub fn new(bytes: Vec<u8>) -> (r: Result<CString, NulError>)
        ensures
            match r {
                Ok(c) => !has_nul(bytes@) && c@ == bytes@,
                Err(e) => is_first_nul(bytes@, e.spec_nul_position() as int),
            },
    {
        let mut i: usize = 0;
        while i < bytes.len()
            invariant
                i <= bytes.len(),
                forall|j: int| 0 <= j < i ==> bytes@[j] != 0u8,
            decreases bytes.len() - i,
        {
            if bytes[i] == 0 {
                return Err(NulError::new(i));
            }
            i += 1;
        }
        let mut bytes = bytes;
        bytes.push(0);
        Ok(CString { bytes })
    }

    /// The content, without the terminator.
    pub fn as_bytes(&self) -> (bytes: &[u8])
        ensures
            bytes@ == self@,
            !has_nul(self@),
    {
        proof {
            use_type_invariant(self);
        }
        slice_subrange(self.bytes.as_slice(), 0, self.bytes.len() - 1)
    }

    /// The content followed by the terminator.
    pub fn as_bytes_with_nul(&self) -> (bytes: &[u8])
        ensures
            bytes@ == self@.push(0u8),
            !has_nul(self@),
    {
        proof {
            use_type_invariant(self);
        }
        self.bytes.as_slice()
    }
}

impl Clone for CString {
    fn clone(&self) -> (copy: CString)
        ensures
            copy@ == self@,
    {
        proof {
            use_type_invariant(self);
        }
        CString { bytes: self.bytes.clone() }
    }
}

/// The nul-terminated form of `value`: its UTF-8 encoding, with the
/// terminator behind it.
///
/// It exists unless `value` holds a nul character; the error then carries
/// `value` and the index of the first nul byte of the encoding.
pub fn to_cstring(value: &str) -> (r: Result<CString, Error>)
    ensures
        r is Ok <==> nul_free(value@),
        agrees(r, encoded(value@)),
{
    proof {
        lemma_nul_byte_iff_nul_char(value@);
    }
    match CString::new(value.as_bytes_vec()) {
        Ok(c) => Ok(c),
        Err(source) => {
            proof {
                lemma_first_nul(encode_utf8(value@), source.spec_nul_position() as int);
            }
            Err(Error::StringEncoding { value: value.to_owned(), source })
        },
    }
}

/// The text that the content of `value` encodes.
///
/// It exists if the content is UTF-8; otherwise the error carries a copy of
/// `value` and what `core::str::from_utf8` said of its content.
pub fn to_rust_str<'a>(value: &'a CString) -> (r: Result<&'a str, Error>)
    ensures
        r is Ok <==> valid_utf8(value@),
        agrees(r, decoded(value@)),
{
    match core::str::from_utf8(value.as_bytes()) {
        Ok(s) => {
            proof {
                encode_utf8_decode_utf8(s@);
            }
            Ok(s)
        },
        Err(source) => Err(Error::StringDecoding { value: value.clone(), source }),
    }
}

} // verus!

//! The surface of the native store as data: the calls that the accessors
//! ask for, and the answers that they read.
//!
//! Scalars are answered by value, with a flag that tells whether the store
//! held one. Text and lists of text are answered with a null pointer or with
//! a buffer of the store's own, which is released by one call of its own;
//! the accessors read the content of such a buffer as a [`CString`] and say
//! whether the release is due.

use crate::cstring::CString;
use vstd::prelude::*;

verus! {

/// A call of the native store, with its arguments in their native form.
#[derive(Debug)]
#[allow(inconsistent_fields)]
pub enum Call {
    GetLong { key: CString },
    SetLong { key: CString, value: i64 },
    GetDouble { key: CString },
    /// `bits` is the bit pattern of the 64-bit float to store.
    SetDouble { key: CString, bits: u64 },
    GetString { key: CString },
    SetString { key: CString, value: CString },
    GetStringArray { key: CString },
    SetStringArray { key: CString, values: Vec<CString> },
}

/// A [`Call`] as a mathematical value.
#[allow(inconsistent_fields)]
pub enum CallView {
    GetLong { key: Seq<u8> },
    SetLong { key: Seq<u8>, value: i64 },
    GetDouble { key: Seq<u8> },
    SetDouble { key: Seq<u8>, bits: u64 },
    GetString { key: Seq<u8> },
    SetString { key: Seq<u8>, value: Seq<u8> },
    GetStringArray { key: Seq<u8> },
    SetStringArray { key: Seq<u8>, values: Seq<Seq<u8>> },
}

impl View for Call {
    type V = CallView;

    open spec fn view(&self) -> CallView {
        match *self {
            Call::GetLong { key } => CallView::GetLong { key: key@ },
            Call::SetLong { key, value } => CallView::SetLong { key: key@, value },
            Call::GetDouble { key } => CallView::GetDouble { key: key@ },
            Call::SetDouble { key, bits } => CallView::SetDouble { key: key@, bits },
            Call::GetString { key } => CallView::GetString { key: key@ },
            Call::SetString { key, value } => CallView::SetString { key: key@, value: value@ },
            Call::GetStringArray { key } => CallView::GetStringArray { key: key@ },
            Call::SetStringArray { key, values } => CallView::SetStringArray {
                key: key@,
                values: values.deep_view(),
            },
        }
    }
}

impl DeepView for Call {
    type V = CallView;

    open spec fn deep_view(&self) -> CallView {
        self@
    }
}

/// What the native store answers when asked for a 64-bit integer: a value
/// and, beside it, whether the store held one. Zero is a value like any
/// other, so only the flag tells absence.
#[derive(Clone, Copy, Debug)]
pub struct LongReply {
    pub present: bool,
    pub value: i64,
}

/// What the native store answers when asked for a 64-bit float: the bit
/// pattern of a value and, beside it, whether the store held one.
#[derive(Clone, Copy, Debug)]
pub struct DoubleReply {
    pub present: bool,
    pub bits: u64,
}

} // verus!

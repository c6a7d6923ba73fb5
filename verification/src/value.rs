//! Encoding of decoded database scalars as host values.

use crate::str::{host_string_of, unicode_from_str, HostString, HostStringView};
use vstd::prelude::*;

verus! {

/// The bit pattern of a floating-point number, in the width it was read in.
/// The host's native floating type is built from it outside this library.
#[derive(Clone, Copy, Debug, PartialEq, Eq, Structural)]
pub enum FloatBits {
    /// IEEE 754 single precision.
    Single(u32),
    /// IEEE 754 double precision.
    Double(u64),
}

/// A scalar as the database driver decoded it.
#[derive(Clone, Debug, PartialEq, Eq)]
pub enum DbValue {
    Null,
    Bool(bool),
    SmallInt(i16),
    Integer(i32),
    BigInt(i64),
    /// Single-precision float, as its bit pattern.
    Real(u32),
    /// Double-precision float, as its bit pattern.
    Double(u64),
    Text(String),
    Blob(Vec<u8>),
    /// A kind of value that this library does not know.
    Unsupported,
}

/// A value in the host's terms.
#[derive(Clone, Debug, PartialEq, Eq)]
pub enum HostValue {
    /// The host's "none" singleton.
    Nothing,
    Bool(bool),
    /// The host's native integer.
    Int(i64),
    /// The host's native float, to be built from these bits.
    Float(FloatBits),
    Str(HostString),
    /// A binary buffer in host ownership.
    Bytes(Vec<u8>),
}

/// What a [`HostValue`] holds.
pub enum HostValueView {
    Nothing,
    Bool(bool),
    Int(int),
    Float(FloatBits),
    Str(HostStringView),
    Bytes(Seq<u8>),
}

impl View for HostValue {
    type V = HostValueView;

    open spec fn view(&self) -> HostValueView {
        match self {
            HostValue::Nothing => HostValueView::Nothing,
            HostValue::Bool(b) => HostValueView::Bool(*b),
            HostValue::Int(i) => HostValueView::Int(*i as int),
            HostValue::Float(bits) => HostValueView::Float(*bits),
            HostValue::Str(s) => HostValueView::Str(s@),
            HostValue::Bytes(b) => HostValueView::Bytes(b@),
        }
    }
}

/// A database value of a kind that has no host equivalent.
#[derive(Clone, Copy, Debug, PartialEq, Eq, Structural)]
pub struct DecodeError;

/// The host value that stands for a database value, where there is one:
/// integers keep their value in the host's integer, floats keep their bits,
/// text takes its narrowest host representation, a blob keeps its bytes.
pub open spec fn host_value_of(value: DbValue) -> Option<HostValueView> {
    match value {
        DbValue::Null => Some(HostValueView::Nothing),
        DbValue::Bool(b) => Some(HostValueView::Bool(b)),
        DbValue::SmallInt(i) => Some(HostValueView::Int(i as int)),
        DbValue::Integer(i) => Some(HostValueView::Int(i as int)),
        DbValue::BigInt(i) => Some(HostValueView::Int(i as int)),
        DbValue::Real(bits) => Some(HostValueView::Float(FloatBits::Single(bits))),
        DbValue::Double(bits) => Some(HostValueView::Float(FloatBits::Double(bits))),
        DbValue::Text(text) => Some(HostValueView::Str(host_string_of(text@))),
        DbValue::Blob(bytes) => Some(HostValueView::Bytes(bytes@)),
        DbValue::Unsupported => None,
    }
}

fn copy_bytes(bytes: &Vec<u8>) -> (copy: Vec<u8>)
    ensures
        copy@ == bytes@,
{
    let mut copy: Vec<u8> = Vec::with_capacity(bytes.len());
    let mut i: usize = 0;
    while i < bytes.len()
        invariant
            i <= bytes@.len(),
            copy@ == bytes@.subrange(0, i as int),
        decreases bytes@.len() - i,
    {
        copy.push(bytes[i]);
        i += 1;
    }
    assert(bytes@.subrange(0, bytes@.len() as int) == bytes@);
    copy
}

/// Encodes a database value for the host. A value of an unknown kind is an
/// error and is never replaced by a default.
pub fn encode_value(value: &DbValue) -> (encoded: Result<HostValue, DecodeError>)
    ensures
        match host_value_of(*value) {
            Some(host) => encoded is Ok && encoded->Ok_0@ == host,
            None => encoded is Err,
        },
{
    match value {
        DbValue::Null => Ok(HostValue::Nothing),
        DbValue::Bool(b) => Ok(HostValue::Bool(*b)),
        DbValue::SmallInt(i) => Ok(HostValue::Int(*i as i64)),
        DbValue::Integer(i) => Ok(HostValue::Int(*i as i64)),
        DbValue::BigInt(i) => Ok(HostValue::Int(*i)),
        DbValue::Real(bits) => Ok(HostValue::Float(FloatBits::Single(*bits))),
        DbValue::Double(bits) => Ok(HostValue::Float(FloatBits::Double(*bits))),
        DbValue::Text(text) => Ok(HostValue::Str(unicode_from_str(text.as_str()))),
        DbValue::Blob(bytes) => Ok(HostValue::Bytes(copy_bytes(bytes))),
        DbValue::Unsupported => Err(DecodeError),
    }
}

} // verus!

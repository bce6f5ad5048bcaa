//! Dynamic values as the store's query layer returns them, typed field
//! values as the write path needs them, and the coercion between the two.

use vstd::prelude::*;
use crate::schema::FieldType;

verus! {

/// An untyped scalar from a query response. A floating-point number is
/// carried as the bit pattern of its 64-bit encoding, so that the
/// verified logic never computes on it; a non-negative integer arrives
/// as `UInt`, a negative one as `Int`.
#[derive(Debug, PartialEq)]
pub enum DynValue {
    Null,
    Bool(bool),
    UInt(u64),
    Int(i64),
    FloatBits(u64),
    Text(String),
}

/// Mathematical model of a `DynValue`: text becomes a character sequence.
pub enum DynVal {
    Null,
    Bool(bool),
    UInt(u64),
    Int(i64),
    FloatBits(u64),
    Text(Seq<char>),
}

impl View for DynValue {
    type V = DynVal;

    open spec fn view(&self) -> DynVal {
        match self {
            DynValue::Null => DynVal::Null,
            DynValue::Bool(b) => DynVal::Bool(*b),
            DynValue::UInt(u) => DynVal::UInt(*u),
            DynValue::Int(i) => DynVal::Int(*i),
            DynValue::FloatBits(b) => DynVal::FloatBits(*b),
            DynValue::Text(s) => DynVal::Text(s@),
        }
    }
}

/// A number destined for a 64-bit floating-point field, kept in the
/// exact form the row carried: an unsigned integer, a signed integer,
/// or the bit pattern of a 64-bit floating-point value.
#[derive(Clone, Copy, PartialEq, Eq, Structural, Debug)]
pub enum Number {
    UInt(u64),
    Int(i64),
    Bits(u64),
}

/// A field value coerced to its declared type.
#[derive(Debug, PartialEq)]
pub enum FieldValue {
    Float(Number),
    Integer(u64),
    Text(String),
    Boolean(bool),
}

/// Mathematical model of a `FieldValue`.
pub enum FieldVal {
    Float(Number),
    Integer(u64),
    Text(Seq<char>),
    Boolean(bool),
}

impl View for FieldValue {
    type V = FieldVal;

    open spec fn view(&self) -> FieldVal {
        match self {
            FieldValue::Float(n) => FieldVal::Float(*n),
            FieldValue::Integer(u) => FieldVal::Integer(*u),
            FieldValue::Text(s) => FieldVal::Text(s@),
            FieldValue::Boolean(b) => FieldVal::Boolean(*b),
        }
    }
}

/// Coercion of a dynamic value to a declared field type, mirroring how
/// the query layer reads numbers: any number may serve as a float; an
/// integer field takes an unsigned value or a non-negative signed one;
/// text and booleans only ever match themselves. `None` means the value
/// is not well-formed for the type.
pub open spec fn spec_coerce(v: DynVal, t: FieldType) -> Option<FieldVal> {
    match t {
        FieldType::Float => match v {
            DynVal::UInt(u) => Some(FieldVal::Float(Number::UInt(u))),
            DynVal::Int(i) => Some(FieldVal::Float(Number::Int(i))),
            DynVal::FloatBits(b) => Some(FieldVal::Float(Number::Bits(b))),
            _ => None,
        },
        FieldType::Integer => match v {
            DynVal::UInt(u) => Some(FieldVal::Integer(u)),
            DynVal::Int(i) => if i >= 0 {
                Some(FieldVal::Integer(i as u64))
            } else {
                None
            },
            _ => None,
        },
        FieldType::Text => match v {
            DynVal::Text(s) => Some(FieldVal::Text(s)),
            _ => None,
        },
        FieldType::Boolean => match v {
            DynVal::Bool(b) => Some(FieldVal::Boolean(b)),
            _ => None,
        },
    }
}

/// The string a tag value contributes to the write request: tags are
/// written as strings, and only a textual value has one.
pub open spec fn spec_as_text(v: DynVal) -> Option<Seq<char>> {
    match v {
        DynVal::Text(s) => Some(s),
        _ => None,
    }
}

/// Executable coercion; agrees with `spec_coerce` on the views.
pub fn coerce(v: &DynValue, t: FieldType) -> (r: Option<FieldValue>)
    ensures
        r is Some <==> spec_coerce(v@, t) is Some,
        r is Some ==> r->0@ == spec_coerce(v@, t)->0,
{
    match t {
        FieldType::Float => match v {
            DynValue::UInt(u) => Some(FieldValue::Float(Number::UInt(*u))),
            DynValue::Int(i) => Some(FieldValue::Float(Number::Int(*i))),
            DynValue::FloatBits(b) => Some(FieldValue::Float(Number::Bits(*b))),
            _ => None,
        },
        FieldType::Integer => match v {
            DynValue::UInt(u) => Some(FieldValue::Integer(*u)),
            DynValue::Int(i) => if *i >= 0 {
                Some(FieldValue::Integer(*i as u64))
            } else {
                None
            },
            _ => None,
        },
        FieldType::Text => match v {
            DynValue::Text(s) => Some(FieldValue::Text(s.clone())),
            _ => None,
        },
        FieldType::Boolean => match v {
            DynValue::Bool(b) => Some(FieldValue::Boolean(*b)),
            _ => None,
        },
    }
}

/// A warning recorded while a row is reconstructed; never fatal.
#[derive(Debug, PartialEq)]
pub enum RowWarning {
    /// A row key matched neither the tag nor the field schema; its value
    /// was dropped from the point.
    Coercion(String),
    /// The reserved timestamp key held a value that is not a well-formed
    /// timestamp; the point's timestamp defaulted to zero.
    TimestampParse(DynValue),
}

/// Mathematical model of a `RowWarning`.
pub enum RowWarnVal {
    Coercion(Seq<char>),
    TimestampParse(DynVal),
}

impl View for RowWarning {
    type V = RowWarnVal;

    open spec fn view(&self) -> RowWarnVal {
        match self {
            RowWarning::Coercion(k) => RowWarnVal::Coercion(k@),
            RowWarning::TimestampParse(v) => RowWarnVal::TimestampParse(v@),
        }
    }
}

} // verus!

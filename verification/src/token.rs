//! The token vocabulary of the pull model, and the shared error vocabulary.
//!
//! A [`Token`] is one tagged unit of a decomposed value stream: a primitive
//! value or a collection boundary marker.  Every `CollectionStart(n)` is
//! matched by exactly one `CollectionEnd` at the same nesting depth; `n` is a
//! length hint, never an enforced count.

use vstd::prelude::*;

verus! {

/// One tagged unit of a decomposed value stream.
///
/// Floating-point payloads are carried as their IEEE-754 bit patterns
/// (`F32Bits`, `F64Bits`): the verified decoder treats them as opaque bits,
/// and arithmetic on them is left to the unverified rim of the crate.
#[derive(Clone, Debug, PartialEq)]
pub enum Token {
    Null,
    Bool(bool),
    Int(isize),
    I8(i8),
    I16(i16),
    I32(i32),
    I64(i64),
    Uint(usize),
    U8(u8),
    U16(u16),
    U32(u32),
    U64(u64),
    F32Bits(u32),
    F64Bits(u64),
    Char(char),
    Str(&'static str),
    StrBuf(String),
    CollectionStart(usize),
    CollectionEnd,
}

/// The error vocabulary shared by the whole protocol layer.
///
/// Generic code distinguishes exactly three causes of failure; a format may
/// carry richer diagnostics in its own error type (see [`crate::de::Error`]).
#[derive(Clone, Debug, PartialEq)]
pub enum Error {
    /// A malformed or unexpected token or shape.
    SyntaxError,
    /// The input was exhausted before a value completed.
    EndOfStreamError,
    /// A named aggregate lacked the required member carried here.
    MissingFieldError(&'static str),
}

/// The mathematical value of an integer-tagged token, and `None` for every
/// other token.  Float-tagged tokens carry opaque bits and have no integer
/// value here.
pub open spec fn int_value(t: Token) -> Option<int> {
    match t {
        Token::Int(v) => Some(v as int),
        Token::I8(v) => Some(v as int),
        Token::I16(v) => Some(v as int),
        Token::I32(v) => Some(v as int),
        Token::I64(v) => Some(v as int),
        Token::Uint(v) => Some(v as int),
        Token::U8(v) => Some(v as int),
        Token::U16(v) => Some(v as int),
        Token::U32(v) => Some(v as int),
        Token::U64(v) => Some(v as int),
        _ => None,
    }
}

/// A width-independent carrier for the value of an integer-tagged token:
/// every such value fits in an `i64` or in a `u64`.  The one conversion of a
/// token into `Wide` plus one range check per target width together give the
/// checked cross-width coercion used by all integer `expect_*` operations.
pub enum Wide {
    Signed(i64),
    Unsigned(u64),
}

/// The mathematical value a [`Wide`] carries.
pub open spec fn wide_value(w: Wide) -> int {
    match w {
        Wide::Signed(v) => v as int,
        Wide::Unsigned(v) => v as int,
    }
}

/// Extracts the integer value of an integer-tagged token.
pub fn token_wide(t: &Token) -> (r: Option<Wide>)
    ensures
        match r {
            Some(w) => int_value(*t) == Some(wide_value(w)),
            None => int_value(*t) is None,
        },
{
    match t {
        Token::Int(v) => Some(Wide::Signed(*v as i64)),
        Token::I8(v) => Some(Wide::Signed(*v as i64)),
        Token::I16(v) => Some(Wide::Signed(*v as i64)),
        Token::I32(v) => Some(Wide::Signed(*v as i64)),
        Token::I64(v) => Some(Wide::Signed(*v)),
        Token::Uint(v) => Some(Wide::Unsigned(*v as u64)),
        Token::U8(v) => Some(Wide::Unsigned(*v as u64)),
        Token::U16(v) => Some(Wide::Unsigned(*v as u64)),
        Token::U32(v) => Some(Wide::Unsigned(*v as u64)),
        Token::U64(v) => Some(Wide::Unsigned(*v)),
        _ => None,
    }
}

/// Converts a [`Wide`] into `i8` exactly when its value fits.
pub fn wide_to_i8(w: Wide) -> (r: Option<i8>)
    ensures
        match r {
            Some(v) => wide_value(w) == v as int,
            None => !(i8::MIN <= wide_value(w) <= i8::MAX),
        },
{
    match w {
        Wide::Signed(v) => if i8::MIN as i64 <= v && v <= i8::MAX as i64 {
            Some(v as i8)
        } else {
            None
        },
        Wide::Unsigned(v) => if v <= i8::MAX as u64 {
            Some(v as i8)
        } else {
            None
        },
    }
}

/// Converts a [`Wide`] into `i16` exactly when its value fits.
pub fn wide_to_i16(w: Wide) -> (r: Option<i16>)
    ensures
        match r {
            Some(v) => wide_value(w) == v as int,
            None => !(i16::MIN <= wide_value(w) <= i16::MAX),
        },
{
    match w {
        Wide::Signed(v) => if i16::MIN as i64 <= v && v <= i16::MAX as i64 {
            Some(v as i16)
        } else {
            None
        },
        Wide::Unsigned(v) => if v <= i16::MAX as u64 {
            Some(v as i16)
        } else {
            None
        },
    }
}

/// Converts a [`Wide`] into `i32` exactly when its value fits.
pub fn wide_to_i32(w: Wide) -> (r: Option<i32>)
    ensures
        match r {
            Some(v) => wide_value(w) == v as int,
            None => !(i32::MIN <= wide_value(w) <= i32::MAX),
        },
{
    match w {
        Wide::Signed(v) => if i32::MIN as i64 <= v && v <= i32::MAX as i64 {
            Some(v as i32)
        } else {
            None
        },
        Wide::Unsigned(v) => if v <= i32::MAX as u64 {
            Some(v as i32)
        } else {
            None
        },
    }
}

/// Converts a [`Wide`] into `i64` exactly when its value fits.
pub fn wide_to_i64(w: Wide) -> (r: Option<i64>)
    ensures
        match r {
            Some(v) => wide_value(w) == v as int,
            None => !(i64::MIN <= wide_value(w) <= i64::MAX),
        },
{
    match w {
        Wide::Signed(v) => Some(v),
        Wide::Unsigned(v) => if v <= i64::MAX as u64 {
            Some(v as i64)
        } else {
            None
        },
    }
}

/// Converts a [`Wide`] into `isize` exactly when its value fits.
pub fn wide_to_int(w: Wide) -> (r: Option<isize>)
    ensures
        match r {
            Some(v) => wide_value(w) == v as int,
            None => !(isize::MIN <= wide_value(w) <= isize::MAX),
        },
{
    match w {
        Wide::Signed(v) => if isize::MIN as i64 <= v && v <= isize::MAX as i64 {
            Some(v as isize)
        } else {
            None
        },
        Wide::Unsigned(v) => if v <= isize::MAX as u64 {
            Some(v as isize)
        } else {
            None
        },
    }
}

/// Converts a [`Wide`] into `u8` exactly when its value fits.
pub fn wide_to_u8(w: Wide) -> (r: Option<u8>)
    ensures
        match r {
            Some(v) => wide_value(w) == v as int,
            None => !(0 <= wide_value(w) <= u8::MAX),
        },
{
    match w {
        Wide::Signed(v) => if 0 <= v && v <= u8::MAX as i64 {
            Some(v as u8)
        } else {
            None
        },
        Wide::Unsigned(v) => if v <= u8::MAX as u64 {
            Some(v as u8)
        } else {
            None
        },
    }
}

/// Converts a [`Wide`] into `u16` exactly when its value fits.
pub fn wide_to_u16(w: Wide) -> (r: Option<u16>)
    ensures
        match r {
            Some(v) => wide_value(w) == v as int,
            None => !(0 <= wide_value(w) <= u16::MAX),
        },
{
    match w {
        Wide::Signed(v) => if 0 <= v && v <= u16::MAX as i64 {
            Some(v as u16)
        } else {
            None
        },
        Wide::Unsigned(v) => if v <= u16::MAX as u64 {
            Some(v as u16)
        } else {
            None
        },
    }
}

/// Converts a [`Wide`] into `u32` exactly when its value fits.
pub fn wide_to_u32(w: Wide) -> (r: Option<u32>)
    ensures
        match r {
            Some(v) => wide_value(w) == v as int,
            None => !(0 <= wide_value(w) <= u32::MAX),
        },
{
    match w {
        Wide::Signed(v) => if 0 <= v && v <= u32::MAX as i64 {
            Some(v as u32)
        } else {
            None
        },
        Wide::Unsigned(v) => if v <= u32::MAX as u64 {
            Some(v as u32)
        } else {
            None
        },
    }
}

/// Converts a [`Wide`] into `u64` exactly when its value fits.
pub fn wide_to_u64(w: Wide) -> (r: Option<u64>)
    ensures
        match r {
            Some(v) => wide_value(w) == v as int,
            None => !(0 <= wide_value(w) <= u64::MAX),
        },
{
    match w {
        Wide::Signed(v) => if 0 <= v {
            Some(v as u64)
        } else {
            None
        },
        Wide::Unsigned(v) => Some(v),
    }
}

/// Converts a [`Wide`] into `usize` exactly when its value fits.
pub fn wide_to_uint(w: Wide) -> (r: Option<usize>)
    ensures
        match r {
            Some(v) => wide_value(w) == v as int,
            None => !(0 <= wide_value(w) <= usize::MAX),
        },
{
    match w {
        Wide::Signed(v) => if 0 <= v && (v as u64) <= usize::MAX as u64 {
            Some(v as usize)
        } else {
            None
        },
        Wide::Unsigned(v) => if v <= usize::MAX as u64 {
            Some(v as usize)
        } else {
            None
        },
    }
}

} // verus!

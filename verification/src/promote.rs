//! Type promotion and casting rules (NumPy 1.x semantics).
//!
//! - `bool` + anything → anything
//! - integer + integer → the wider type; mixed sign → signed, one step wider
//! - integer + float → float wide enough to hold the integer
//! - float + float → the wider of the two
//! - anything + complex → complex
use vstd::prelude::*;
use crate::dtype::{spec_is_complex, spec_is_float, spec_is_integer, spec_itemsize, DType};
use crate::error::{MohuError, MohuResult};
use crate::text::string_of;

verus! {

/// Controls which casts `can_cast` considers valid.
#[derive(Debug, Clone, Copy, PartialEq, Eq, PartialOrd, Ord, Hash, Structural)]
pub enum CastMode {
    /// Only casts that cannot lose information (I8 → I16, F32 → F64).
    Safe,
    /// Casts within the same kind, precision loss allowed (F64 → F32).
    SameKind,
    /// Any cast.
    Unsafe,
}

/// The result dtype of an arithmetic operation between `a` and `b`.
pub open spec fn spec_promote(a: DType, b: DType) -> DType {
    match a {
        DType::Bool => match b {
            DType::Bool => DType::Bool,
            DType::I8 => DType::I8,
            DType::I16 => DType::I16,
            DType::I32 => DType::I32,
            DType::I64 => DType::I64,
            DType::U8 => DType::U8,
            DType::U16 => DType::U16,
            DType::U32 => DType::U32,
            DType::U64 => DType::U64,
            DType::F16 => DType::F16,
            DType::BF16 => DType::BF16,
            DType::F32 => DType::F32,
            DType::F64 => DType::F64,
            DType::C64 => DType::C64,
            DType::C128 => DType::C128,
        },
        DType::I8 => match b {
            DType::Bool => DType::I8,
            DType::I8 => DType::I8,
            DType::I16 => DType::I16,
            DType::I32 => DType::I32,
            DType::I64 => DType::I64,
            DType::U8 => DType::I16,
            DType::U16 => DType::I32,
            DType::U32 => DType::I64,
            DType::U64 => DType::F64,
            DType::F16 => DType::F32,
            DType::BF16 => DType::BF16,
            DType::F32 => DType::F32,
            DType::F64 => DType::F64,
            DType::C64 => DType::C64,
            DType::C128 => DType::C128,
        },
        DType::I16 => match b {
            DType::Bool => DType::I16,
            DType::I8 => DType::I16,
            DType::I16 => DType::I16,
            DType::I32 => DType::I32,
            DType::I64 => DType::I64,
            DType::U8 => DType::I16,
            DType::U16 => DType::I32,
            DType::U32 => DType::I64,
            DType::U64 => DType::F64,
            DType::F16 => DType::F32,
            DType::BF16 => DType::F32,
            DType::F32 => DType::F32,
            DType::F64 => DType::F64,
            DType::C64 => DType::C64,
            DType::C128 => DType::C128,
        },
        DType::I32 => match b {
            DType::Bool => DType::I32,
            DType::I8 => DType::I32,
            DType::I16 => DType::I32,
            DType::I32 => DType::I32,
            DType::I64 => DType::I64,
            DType::U8 => DType::I32,
            DType::U16 => DType::I32,
            DType::U32 => DType::I64,
            DType::U64 => DType::F64,
            DType::F16 => DType::F64,
            DType::BF16 => DType::F64,
            DType::F32 => DType::F64,
            DType::F64 => DType::F64,
            DType::C64 => DType::C128,
            DType::C128 => DType::C128,
        },
        DType::I64 => match b {
            DType::Bool => DType::I64,
            DType::I8 => DType::I64,
            DType::I16 => DType::I64,
            DType::I32 => DType::I64,
            DType::I64 => DType::I64,
            DType::U8 => DType::I64,
            DType::U16 => DType::I64,
            DType::U32 => DType::I64,
            DType::U64 => DType::F64,
            DType::F16 => DType::F64,
            DType::BF16 => DType::F64,
            DType::F32 => DType::F64,
            DType::F64 => DType::F64,
            DType::C64 => DType::C128,
            DType::C128 => DType::C128,
        },
        DType::U8 => match b {
            DType::Bool => DType::U8,
            DType::I8 => DType::I16,
            DType::I16 => DType::I16,
            DType::I32 => DType::I32,
            DType::I64 => DType::I64,
            DType::U8 => DType::U8,
            DType::U16 => DType::U16,
            DType::U32 => DType::U32,
            DType::U64 => DType::U64,
            DType::F16 => DType::F16,
            DType::BF16 => DType::BF16,
            DType::F32 => DType::F32,
            DType::F64 => DType::F64,
            DType::C64 => DType::C64,
            DType::C128 => DType::C128,
        },
        DType::U16 => match b {
            DType::Bool => DType::U16,
            DType::I8 => DType::I32,
            DType::I16 => DType::I32,
            DType::I32 => DType::I32,
            DType::I64 => DType::I64,
            DType::U8 => DType::U16,
            DType::U16 => DType::U16,
            DType::U32 => DType::U32,
            DType::U64 => DType::U64,
            DType::F16 => DType::F32,
            DType::BF16 => DType::F32,
            DType::F32 => DType::F32,
            DType::F64 => DType::F64,
            DType::C64 => DType::C64,
            DType::C128 => DType::C128,
        },
        DType::U32 => match b {
            DType::Bool => DType::U32,
            DType::I8 => DType::I64,
            DType::I16 => DType::I64,
            DType::I32 => DType::I64,
            DType::I64 => DType::I64,
            DType::U8 => DType::U32,
            DType::U16 => DType::U32,
            DType::U32 => DType::U32,
            DType::U64 => DType::U64,
            DType::F16 => DType::F64,
            DType::BF16 => DType::F64,
            DType::F32 => DType::F64,
            DType::F64 => DType::F64,
            DType::C64 => DType::C128,
            DType::C128 => DType::C128,
        },
        DType::U64 => match b {
            DType::Bool => DType::U64,
            DType::I8 => DType::F64,
            DType::I16 => DType::F64,
            DType::I32 => DType::F64,
            DType::I64 => DType::F64,
            DType::U8 => DType::U64,
            DType::U16 => DType::U64,
            DType::U32 => DType::U64,
            DType::U64 => DType::U64,
            DType::F16 => DType::F64,
            DType::BF16 => DType::F64,
            DType::F32 => DType::F64,
            DType::F64 => DType::F64,
            DType::C64 => DType::C128,
            DType::C128 => DType::C128,
        },
        DType::F16 => match b {
            DType::Bool => DType::F16,
            DType::I8 => DType::F32,
            DType::I16 => DType::F32,
            DType::I32 => DType::F64,
            DType::I64 => DType::F64,
            DType::U8 => DType::F16,
            DType::U16 => DType::F32,
            DType::U32 => DType::F64,
            DType::U64 => DType::F64,
            DType::F16 => DType::F16,
            DType::BF16 => DType::F32,
            DType::F32 => DType::F32,
            DType::F64 => DType::F64,
            DType::C64 => DType::C64,
            DType::C128 => DType::C128,
        },
        DType::BF16 => match b {
            DType::Bool => DType::BF16,
            DType::I8 => DType::BF16,
            DType::I16 => DType::F32,
            DType::I32 => DType::F64,
            DType::I64 => DType::F64,
            DType::U8 => DType::BF16,
            DType::U16 => DType::F32,
            DType::U32 => DType::F64,
            DType::U64 => DType::F64,
            DType::F16 => DType::F32,
            DType::BF16 => DType::BF16,
            DType::F32 => DType::F32,
            DType::F64 => DType::F64,
            DType::C64 => DType::C64,
            DType::C128 => DType::C128,
        },
        DType::F32 => match b {
            DType::Bool => DType::F32,
            DType::I8 => DType::F32,
            DType::I16 => DType::F32,
            DType::I32 => DType::F64,
            DType::I64 => DType::F64,
            DType::U8 => DType::F32,
            DType::U16 => DType::F32,
            DType::U32 => DType::F64,
            DType::U64 => DType::F64,
            DType::F16 => DType::F32,
            DType::BF16 => DType::F32,
            DType::F32 => DType::F32,
            DType::F64 => DType::F64,
            DType::C64 => DType::C64,
            DType::C128 => DType::C128,
        },
        DType::F64 => match b {
            DType::Bool => DType::F64,
            DType::I8 => DType::F64,
            DType::I16 => DType::F64,
            DType::I32 => DType::F64,
            DType::I64 => DType::F64,
            DType::U8 => DType::F64,
            DType::U16 => DType::F64,
            DType::U32 => DType::F64,
            DType::U64 => DType::F64,
            DType::F16 => DType::F64,
            DType::BF16 => DType::F64,
            DType::F32 => DType::F64,
            DType::F64 => DType::F64,
            DType::C64 => DType::C128,
            DType::C128 => DType::C128,
        },
        DType::C64 => match b {
            DType::Bool => DType::C64,
            DType::I8 => DType::C64,
            DType::I16 => DType::C64,
            DType::I32 => DType::C128,
            DType::I64 => DType::C128,
            DType::U8 => DType::C64,
            DType::U16 => DType::C64,
            DType::U32 => DType::C128,
            DType::U64 => DType::C128,
            DType::F16 => DType::C64,
            DType::BF16 => DType::C64,
            DType::F32 => DType::C64,
            DType::F64 => DType::C128,
            DType::C64 => DType::C64,
            DType::C128 => DType::C128,
        },
        DType::C128 => match b {
            DType::Bool => DType::C128,
            DType::I8 => DType::C128,
            DType::I16 => DType::C128,
            DType::I32 => DType::C128,
            DType::I64 => DType::C128,
            DType::U8 => DType::C128,
            DType::U16 => DType::C128,
            DType::U32 => DType::C128,
            DType::U64 => DType::C128,
            DType::F16 => DType::C128,
            DType::BF16 => DType::C128,
            DType::F32 => DType::C128,
            DType::F64 => DType::C128,
            DType::C64 => DType::C128,
            DType::C128 => DType::C128,
        },
    }
}

/// Casts that cannot lose information.
pub open spec fn safe_cast(a: DType, b: DType) -> bool {
    match a {
        DType::Bool => match b {
            DType::Bool => true,
            DType::I8 => true,
            DType::I16 => true,
            DType::I32 => true,
            DType::I64 => true,
            DType::U8 => true,
            DType::U16 => true,
            DType::U32 => true,
            DType::U64 => true,
            DType::F16 => true,
            DType::BF16 => true,
            DType::F32 => true,
            DType::F64 => true,
            DType::C64 => true,
            DType::C128 => true,
        },
        DType::I8 => match b {
            DType::Bool => false,
            DType::I8 => true,
            DType::I16 => true,
            DType::I32 => true,
            DType::I64 => true,
            DType::U8 => false,
            DType::U16 => false,
            DType::U32 => false,
            DType::U64 => false,
            DType::F16 => true,
            DType::BF16 => true,
            DType::F32 => true,
            DType::F64 => true,
            DType::C64 => true,
            DType::C128 => true,
        },
        DType::I16 => match b {
            DType::Bool => false,
            DType::I8 => false,
            DType::I16 => true,
            DType::I32 => true,
            DType::I64 => true,
            DType::U8 => false,
            DType::U16 => false,
            DType::U32 => false,
            DType::U64 => false,
            DType::F16 => false,
            DType::BF16 => false,
            DType::F32 => true,
            DType::F64 => true,
            DType::C64 => true,
            DType::C128 => true,
        },
        DType::I32 => match b {
            DType::Bool => false,
            DType::I8 => false,
            DType::I16 => false,
            DType::I32 => true,
            DType::I64 => true,
            DType::U8 => false,
            DType::U16 => false,
            DType::U32 => false,
            DType::U64 => false,
            DType::F16 => false,
            DType::BF16 => false,
            DType::F32 => false,
            DType::F64 => true,
            DType::C64 => false,
            DType::C128 => true,
        },
        DType::I64 => match b {
            DType::Bool => false,
            DType::I8 => false,
            DType::I16 => false,
            DType::I32 => false,
            DType::I64 => true,
            DType::U8 => false,
            DType::U16 => false,
            DType::U32 => false,
            DType::U64 => false,
            DType::F16 => false,
            DType::BF16 => false,
            DType::F32 => false,
            DType::F64 => true,
            DType::C64 => false,
            DType::C128 => true,
        },
        DType::U8 => match b {
            DType::Bool => false,
            DType::I8 => false,
            DType::I16 => true,
            DType::I32 => true,
            DType::I64 => true,
            DType::U8 => true,
            DType::U16 => true,
            DType::U32 => true,
            DType::U64 => true,
            DType::F16 => true,
            DType::BF16 => true,
            DType::F32 => true,
            DType::F64 => true,
            DType::C64 => true,
            DType::C128 => true,
        },
        DType::U16 => match b {
            DType::Bool => false,
            DType::I8 => false,
            DType::I16 => false,
            DType::I32 => true,
            DType::I64 => true,
            DType::U8 => false,
            DType::U16 => true,
            DType::U32 => true,
            DType::U64 => true,
            DType::F16 => false,
            DType::BF16 => false,
            DType::F32 => true,
            DType::F64 => true,
            DType::C64 => true,
            DType::C128 => true,
        },
        DType::U32 => match b {
            DType::Bool => false,
            DType::I8 => false,
            DType::I16 => false,
            DType::I32 => false,
            DType::I64 => true,
            DType::U8 => false,
            DType::U16 => false,
            DType::U32 => true,
            DType::U64 => true,
            DType::F16 => false,
            DType::BF16 => false,
            DType::F32 => false,
            DType::F64 => true,
            DType::C64 => false,
            DType::C128 => true,
        },
        DType::U64 => match b {
            DType::Bool => false,
            DType::I8 => false,
            DType::I16 => false,
            DType::I32 => false,
            DType::I64 => false,
            DType::U8 => false,
            DType::U16 => false,
            DType::U32 => false,
            DType::U64 => true,
            DType::F16 => false,
            DType::BF16 => false,
            DType::F32 => false,
            DType::F64 => true,
            DType::C64 => false,
            DType::C128 => true,
        },
        DType::F16 => match b {
            DType::Bool => false,
            DType::I8 => false,
            DType::I16 => false,
            DType::I32 => false,
            DType::I64 => false,
            DType::U8 => false,
            DType::U16 => false,
            DType::U32 => false,
            DType::U64 => false,
            DType::F16 => true,
            DType::BF16 => false,
            DType::F32 => true,
            DType::F64 => true,
            DType::C64 => true,
            DType::C128 => true,
        },
        DType::BF16 => match b {
            DType::Bool => false,
            DType::I8 => false,
            DType::I16 => false,
            DType::I32 => false,
            DType::I64 => false,
            DType::U8 => false,
            DType::U16 => false,
            DType::U32 => false,
            DType::U64 => false,
            DType::F16 => false,
            DType::BF16 => true,
            DType::F32 => true,
            DType::F64 => true,
            DType::C64 => true,
            DType::C128 => true,
        },
        DType::F32 => match b {
            DType::Bool => false,
            DType::I8 => false,
            DType::I16 => false,
            DType::I32 => false,
            DType::I64 => false,
            DType::U8 => false,
            DType::U16 => false,
            DType::U32 => false,
            DType::U64 => false,
            DType::F16 => false,
            DType::BF16 => false,
            DType::F32 => true,
            DType::F64 => true,
            DType::C64 => true,
            DType::C128 => true,
        },
        DType::F64 => match b {
            DType::Bool => false,
            DType::I8 => false,
            DType::I16 => false,
            DType::I32 => false,
            DType::I64 => false,
            DType::U8 => false,
            DType::U16 => false,
            DType::U32 => false,
            DType::U64 => false,
            DType::F16 => false,
            DType::BF16 => false,
            DType::F32 => false,
            DType::F64 => true,
            DType::C64 => false,
            DType::C128 => true,
        },
        DType::C64 => match b {
            DType::Bool => false,
            DType::I8 => false,
            DType::I16 => false,
            DType::I32 => false,
            DType::I64 => false,
            DType::U8 => false,
            DType::U16 => false,
            DType::U32 => false,
            DType::U64 => false,
            DType::F16 => false,
            DType::BF16 => false,
            DType::F32 => false,
            DType::F64 => false,
            DType::C64 => true,
            DType::C128 => true,
        },
        DType::C128 => match b {
            DType::Bool => false,
            DType::I8 => false,
            DType::I16 => false,
            DType::I32 => false,
            DType::I64 => false,
            DType::U8 => false,
            DType::U16 => false,
            DType::U32 => false,
            DType::U64 => false,
            DType::F16 => false,
            DType::BF16 => false,
            DType::F32 => false,
            DType::F64 => false,
            DType::C64 => false,
            DType::C128 => true,
        },
    }
}

/// Casts within the same kind (bool, integer, float, complex).
pub open spec fn same_kind_cast(a: DType, b: DType) -> bool {
    match a {
        DType::Bool => match b {
            DType::Bool => true,
            DType::I8 => false,
            DType::I16 => false,
            DType::I32 => false,
            DType::I64 => false,
            DType::U8 => false,
            DType::U16 => false,
            DType::U32 => false,
            DType::U64 => false,
            DType::F16 => false,
            DType::BF16 => false,
            DType::F32 => false,
            DType::F64 => false,
            DType::C64 => false,
            DType::C128 => false,
        },
        DType::I8 => match b {
            DType::Bool => false,
            DType::I8 => true,
            DType::I16 => true,
            DType::I32 => true,
            DType::I64 => true,
            DType::U8 => true,
            DType::U16 => true,
            DType::U32 => true,
            DType::U64 => true,
            DType::F16 => false,
            DType::BF16 => false,
            DType::F32 => false,
            DType::F64 => false,
            DType::C64 => false,
            DType::C128 => false,
        },
        DType::I16 => match b {
            DType::Bool => false,
            DType::I8 => true,
            DType::I16 => true,
            DType::I32 => true,
            DType::I64 => true,
            DType::U8 => true,
            DType::U16 => true,
            DType::U32 => true,
            DType::U64 => true,
            DType::F16 => false,
            DType::BF16 => false,
            DType::F32 => false,
            DType::F64 => false,
            DType::C64 => false,
            DType::C128 => false,
        },
        DType::I32 => match b {
            DType::Bool => false,
            DType::I8 => true,
            DType::I16 => true,
            DType::I32 => true,
            DType::I64 => true,
            DType::U8 => true,
            DType::U16 => true,
            DType::U32 => true,
            DType::U64 => true,
            DType::F16 => false,
            DType::BF16 => false,
            DType::F32 => false,
            DType::F64 => false,
            DType::C64 => false,
            DType::C128 => false,
        },
        DType::I64 => match b {
            DType::Bool => false,
            DType::I8 => true,
            DType::I16 => true,
            DType::I32 => true,
            DType::I64 => true,
            DType::U8 => true,
            DType::U16 => true,
            DType::U32 => true,
            DType::U64 => true,
            DType::F16 => false,
            DType::BF16 => false,
            DType::F32 => false,
            DType::F64 => false,
            DType::C64 => false,
            DType::C128 => false,
        },
        DType::U8 => match b {
            DType::Bool => false,
            DType::I8 => true,
            DType::I16 => true,
            DType::I32 => true,
            DType::I64 => true,
            DType::U8 => true,
            DType::U16 => true,
            DType::U32 => true,
            DType::U64 => true,
            DType::F16 => false,
            DType::BF16 => false,
            DType::F32 => false,
            DType::F64 => false,
            DType::C64 => false,
            DType::C128 => false,
        },
        DType::U16 => match b {
            DType::Bool => false,
            DType::I8 => true,
            DType::I16 => true,
            DType::I32 => true,
            DType::I64 => true,
            DType::U8 => true,
            DType::U16 => true,
            DType::U32 => true,
            DType::U64 => true,
            DType::F16 => false,
            DType::BF16 => false,
            DType::F32 => false,
            DType::F64 => false,
            DType::C64 => false,
            DType::C128 => false,
        },
        DType::U32 => match b {
            DType::Bool => false,
            DType::I8 => true,
            DType::I16 => true,
            DType::I32 => true,
            DType::I64 => true,
            DType::U8 => true,
            DType::U16 => true,
            DType::U32 => true,
            DType::U64 => true,
            DType::F16 => false,
            DType::BF16 => false,
            DType::F32 => false,
            DType::F64 => false,
            DType::C64 => false,
            DType::C128 => false,
        },
        DType::U64 => match b {
            DType::Bool => false,
            DType::I8 => true,
            DType::I16 => true,
            DType::I32 => true,
            DType::I64 => true,
            DType::U8 => true,
            DType::U16 => true,
            DType::U32 => true,
            DType::U64 => true,
            DType::F16 => false,
            DType::BF16 => false,
            DType::F32 => false,
            DType::F64 => false,
            DType::C64 => false,
            DType::C128 => false,
        },
        DType::F16 => match b {
            DType::Bool => false,
            DType::I8 => false,
            DType::I16 => false,
            DType::I32 => false,
            DType::I64 => false,
            DType::U8 => false,
            DType::U16 => false,
            DType::U32 => false,
            DType::U64 => false,
            DType::F16 => true,
            DType::BF16 => true,
            DType::F32 => true,
            DType::F64 => true,
            DType::C64 => false,
            DType::C128 => false,
        },
        DType::BF16 => match b {
            DType::Bool => false,
            DType::I8 => false,
            DType::I16 => false,
            DType::I32 => false,
            DType::I64 => false,
            DType::U8 => false,
            DType::U16 => false,
            DType::U32 => false,
            DType::U64 => false,
            DType::F16 => true,
            DType::BF16 => true,
            DType::F32 => true,
            DType::F64 => true,
            DType::C64 => false,
            DType::C128 => false,
        },
        DType::F32 => match b {
            DType::Bool => false,
            DType::I8 => false,
            DType::I16 => false,
            DType::I32 => false,
            DType::I64 => false,
            DType::U8 => false,
            DType::U16 => false,
            DType::U32 => false,
            DType::U64 => false,
            DType::F16 => true,
            DType::BF16 => true,
            DType::F32 => true,
            DType::F64 => true,
            DType::C64 => false,
            DType::C128 => false,
        },
        DType::F64 => match b {
            DType::Bool => false,
            DType::I8 => false,
            DType::I16 => false,
            DType::I32 => false,
            DType::I64 => false,
            DType::U8 => false,
            DType::U16 => false,
            DType::U32 => false,
            DType::U64 => false,
            DType::F16 => true,
            DType::BF16 => true,
            DType::F32 => true,
            DType::F64 => true,
            DType::C64 => false,
            DType::C128 => false,
        },
        DType::C64 => match b {
            DType::Bool => false,
            DType::I8 => false,
            DType::I16 => false,
            DType::I32 => false,
            DType::I64 => false,
            DType::U8 => false,
            DType::U16 => false,
            DType::U32 => false,
            DType::U64 => false,
            DType::F16 => false,
            DType::BF16 => false,
            DType::F32 => false,
            DType::F64 => false,
            DType::C64 => true,
            DType::C128 => true,
        },
        DType::C128 => match b {
            DType::Bool => false,
            DType::I8 => false,
            DType::I16 => false,
            DType::I32 => false,
            DType::I64 => false,
            DType::U8 => false,
            DType::U16 => false,
            DType::U32 => false,
            DType::U64 => false,
            DType::F16 => false,
            DType::BF16 => false,
            DType::F32 => false,
            DType::F64 => false,
            DType::C64 => true,
            DType::C128 => true,
        },
    }
}

/// Whether a cast from `from` to `to` is allowed under `mode`.
pub open spec fn spec_can_cast(from: DType, to: DType, mode: CastMode) -> bool {
    match mode {
        CastMode::Safe => safe_cast(from, to),
        CastMode::SameKind => same_kind_cast(from, to),
        CastMode::Unsafe => true,
    }
}

/// The promotion of all dtypes of `s`, folded from the left.
pub open spec fn promote_all(s: Seq<DType>) -> DType
    decreases s.len(),
{
    if s.len() <= 1 {
        s[0]
    } else {
        spec_promote(promote_all(s.drop_last()), s.last())
    }
}

/// Returns the result dtype of an arithmetic operation between `a` and `b`.
pub fn promote(a: DType, b: DType) -> (r: DType)
    ensures
        r == spec_promote(a, b),
{
    match a {
            DType::Bool => match b {
                DType::Bool => DType::Bool,
                DType::I8 => DType::I8,
                DType::I16 => DType::I16,
                DType::I32 => DType::I32,
                DType::I64 => DType::I64,
                DType::U8 => DType::U8,
                DType::U16 => DType::U16,
                DType::U32 => DType::U32,
                DType::U64 => DType::U64,
                DType::F16 => DType::F16,
                DType::BF16 => DType::BF16,
                DType::F32 => DType::F32,
                DType::F64 => DType::F64,
                DType::C64 => DType::C64,
                DType::C128 => DType::C128,
            },
            DType::I8 => match b {
                DType::Bool => DType::I8,
                DType::I8 => DType::I8,
                DType::I16 => DType::I16,
                DType::I32 => DType::I32,
                DType::I64 => DType::I64,
                DType::U8 => DType::I16,
                DType::U16 => DType::I32,
                DType::U32 => DType::I64,
                DType::U64 => DType::F64,
                DType::F16 => DType::F32,
                DType::BF16 => DType::BF16,
                DType::F32 => DType::F32,
                DType::F64 => DType::F64,
                DType::C64 => DType::C64,
                DType::C128 => DType::C128,
            },
            DType::I16 => match b {
                DType::Bool => DType::I16,
                DType::I8 => DType::I16,
                DType::I16 => DType::I16,
                DType::I32 => DType::I32,
                DType::I64 => DType::I64,
                DType::U8 => DType::I16,
                DType::U16 => DType::I32,
                DType::U32 => DType::I64,
                DType::U64 => DType::F64,
                DType::F16 => DType::F32,
                DType::BF16 => DType::F32,
                DType::F32 => DType::F32,
                DType::F64 => DType::F64,
                DType::C64 => DType::C64,
                DType::C128 => DType::C128,
            },
            DType::I32 => match b {
                DType::Bool => DType::I32,
                DType::I8 => DType::I32,
                DType::I16 => DType::I32,
                DType::I32 => DType::I32,
                DType::I64 => DType::I64,
                DType::U8 => DType::I32,
                DType::U16 => DType::I32,
                DType::U32 => DType::I64,
                DType::U64 => DType::F64,
                DType::F16 => DType::F64,
                DType::BF16 => DType::F64,
                DType::F32 => DType::F64,
                DType::F64 => DType::F64,
                DType::C64 => DType::C128,
                DType::C128 => DType::C128,
            },
            DType::I64 => match b {
                DType::Bool => DType::I64,
                DType::I8 => DType::I64,
                DType::I16 => DType::I64,
                DType::I32 => DType::I64,
                DType::I64 => DType::I64,
                DType::U8 => DType::I64,
                DType::U16 => DType::I64,
                DType::U32 => DType::I64,
                DType::U64 => DType::F64,
                DType::F16 => DType::F64,
                DType::BF16 => DType::F64,
                DType::F32 => DType::F64,
                DType::F64 => DType::F64,
                DType::C64 => DType::C128,
                DType::C128 => DType::C128,
            },
            DType::U8 => match b {
                DType::Bool => DType::U8,
                DType::I8 => DType::I16,
                DType::I16 => DType::I16,
                DType::I32 => DType::I32,
                DType::I64 => DType::I64,
                DType::U8 => DType::U8,
                DType::U16 => DType::U16,
                DType::U32 => DType::U32,
                DType::U64 => DType::U64,
                DType::F16 => DType::F16,
                DType::BF16 => DType::BF16,
                DType::F32 => DType::F32,
                DType::F64 => DType::F64,
                DType::C64 => DType::C64,
                DType::C128 => DType::C128,
            },
            DType::U16 => match b {
                DType::Bool => DType::U16,
                DType::I8 => DType::I32,
                DType::I16 => DType::I32,
                DType::I32 => DType::I32,
                DType::I64 => DType::I64,
                DType::U8 => DType::U16,
                DType::U16 => DType::U16,
                DType::U32 => DType::U32,
                DType::U64 => DType::U64,
                DType::F16 => DType::F32,
                DType::BF16 => DType::F32,
                DType::F32 => DType::F32,
                DType::F64 => DType::F64,
                DType::C64 => DType::C64,
                DType::C128 => DType::C128,
            },
            DType::U32 => match b {
                DType::Bool => DType::U32,
                DType::I8 => DType::I64,
                DType::I16 => DType::I64,
                DType::I32 => DType::I64,
                DType::I64 => DType::I64,
                DType::U8 => DType::U32,
                DType::U16 => DType::U32,
                DType::U32 => DType::U32,
                DType::U64 => DType::U64,
                DType::F16 => DType::F64,
                DType::BF16 => DType::F64,
                DType::F32 => DType::F64,
                DType::F64 => DType::F64,
                DType::C64 => DType::C128,
                DType::C128 => DType::C128,
            },
            DType::U64 => match b {
                DType::Bool => DType::U64,
                DType::I8 => DType::F64,
                DType::I16 => DType::F64,
                DType::I32 => DType::F64,
                DType::I64 => DType::F64,
                DType::U8 => DType::U64,
                DType::U16 => DType::U64,
                DType::U32 => DType::U64,
                DType::U64 => DType::U64,
                DType::F16 => DType::F64,
                DType::BF16 => DType::F64,
                DType::F32 => DType::F64,
                DType::F64 => DType::F64,
                DType::C64 => DType::C128,
                DType::C128 => DType::C128,
            },
            DType::F16 => match b {
                DType::Bool => DType::F16,
                DType::I8 => DType::F32,
                DType::I16 => DType::F32,
                DType::I32 => DType::F64,
                DType::I64 => DType::F64,
                DType::U8 => DType::F16,
                DType::U16 => DType::F32,
                DType::U32 => DType::F64,
                DType::U64 => DType::F64,
                DType::F16 => DType::F16,
                DType::BF16 => DType::F32,
                DType::F32 => DType::F32,
                DType::F64 => DType::F64,
                DType::C64 => DType::C64,
                DType::C128 => DType::C128,
            },
            DType::BF16 => match b {
                DType::Bool => DType::BF16,
                DType::I8 => DType::BF16,
                DType::I16 => DType::F32,
                DType::I32 => DType::F64,
                DType::I64 => DType::F64,
                DType::U8 => DType::BF16,
                DType::U16 => DType::F32,
                DType::U32 => DType::F64,
                DType::U64 => DType::F64,
                DType::F16 => DType::F32,
                DType::BF16 => DType::BF16,
                DType::F32 => DType::F32,
                DType::F64 => DType::F64,
                DType::C64 => DType::C64,
                DType::C128 => DType::C128,
            },
            DType::F32 => match b {
                DType::Bool => DType::F32,
                DType::I8 => DType::F32,
                DType::I16 => DType::F32,
                DType::I32 => DType::F64,
                DType::I64 => DType::F64,
                DType::U8 => DType::F32,
                DType::U16 => DType::F32,
                DType::U32 => DType::F64,
                DType::U64 => DType::F64,
                DType::F16 => DType::F32,
                DType::BF16 => DType::F32,
                DType::F32 => DType::F32,
                DType::F64 => DType::F64,
                DType::C64 => DType::C64,
                DType::C128 => DType::C128,
            },
            DType::F64 => match b {
                DType::Bool => DType::F64,
                DType::I8 => DType::F64,
                DType::I16 => DType::F64,
                DType::I32 => DType::F64,
                DType::I64 => DType::F64,
                DType::U8 => DType::F64,
                DType::U16 => DType::F64,
                DType::U32 => DType::F64,
                DType::U64 => DType::F64,
                DType::F16 => DType::F64,
                DType::BF16 => DType::F64,
                DType::F32 => DType::F64,
                DType::F64 => DType::F64,
                DType::C64 => DType::C128,
                DType::C128 => DType::C128,
            },
            DType::C64 => match b {
                DType::Bool => DType::C64,
                DType::I8 => DType::C64,
                DType::I16 => DType::C64,
                DType::I32 => DType::C128,
                DType::I64 => DType::C128,
                DType::U8 => DType::C64,
                DType::U16 => DType::C64,
                DType::U32 => DType::C128,
                DType::U64 => DType::C128,
                DType::F16 => DType::C64,
                DType::BF16 => DType::C64,
                DType::F32 => DType::C64,
                DType::F64 => DType::C128,
                DType::C64 => DType::C64,
                DType::C128 => DType::C128,
            },
            DType::C128 => match b {
                DType::Bool => DType::C128,
                DType::I8 => DType::C128,
                DType::I16 => DType::C128,
                DType::I32 => DType::C128,
                DType::I64 => DType::C128,
                DType::U8 => DType::C128,
                DType::U16 => DType::C128,
                DType::U32 => DType::C128,
                DType::U64 => DType::C128,
                DType::F16 => DType::C128,
                DType::BF16 => DType::C128,
                DType::F32 => DType::C128,
                DType::F64 => DType::C128,
                DType::C64 => DType::C128,
                DType::C128 => DType::C128,
            },
        }
}

/// Returns `true` if a cast from `from` to `to` is allowed under `mode`.
pub fn can_cast(from: DType, to: DType, mode: CastMode) -> (r: bool)
    ensures
        r == spec_can_cast(from, to, mode),
{
    let (a, b) = (from, to);
    match mode {
        CastMode::Safe => match a {
            DType::Bool => match b {
                DType::Bool => true,
                DType::I8 => true,
                DType::I16 => true,
                DType::I32 => true,
                DType::I64 => true,
                DType::U8 => true,
                DType::U16 => true,
                DType::U32 => true,
                DType::U64 => true,
                DType::F16 => true,
                DType::BF16 => true,
                DType::F32 => true,
                DType::F64 => true,
                DType::C64 => true,
                DType::C128 => true,
            },
            DType::I8 => match b {
                DType::Bool => false,
                DType::I8 => true,
                DType::I16 => true,
                DType::I32 => true,
                DType::I64 => true,
                DType::U8 => false,
                DType::U16 => false,
                DType::U32 => false,
                DType::U64 => false,
                DType::F16 => true,
                DType::BF16 => true,
                DType::F32 => true,
                DType::F64 => true,
                DType::C64 => true,
                DType::C128 => true,
            },
            DType::I16 => match b {
                DType::Bool => false,
                DType::I8 => false,
                DType::I16 => true,
                DType::I32 => true,
                DType::I64 => true,
                DType::U8 => false,
                DType::U16 => false,
                DType::U32 => false,
                DType::U64 => false,
                DType::F16 => false,
                DType::BF16 => false,
                DType::F32 => true,
                DType::F64 => true,
                DType::C64 => true,
                DType::C128 => true,
            },
            DType::I32 => match b {
                DType::Bool => false,
                DType::I8 => false,
                DType::I16 => false,
                DType::I32 => true,
                DType::I64 => true,
                DType::U8 => false,
                DType::U16 => false,
                DType::U32 => false,
                DType::U64 => false,
                DType::F16 => false,
                DType::BF16 => false,
                DType::F32 => false,
                DType::F64 => true,
                DType::C64 => false,
                DType::C128 => true,
            },
            DType::I64 => match b {
                DType::Bool => false,
                DType::I8 => false,
                DType::I16 => false,
                DType::I32 => false,
                DType::I64 => true,
                DType::U8 => false,
                DType::U16 => false,
                DType::U32 => false,
                DType::U64 => false,
                DType::F16 => false,
                DType::BF16 => false,
                DType::F32 => false,
                DType::F64 => true,
                DType::C64 => false,
                DType::C128 => true,
            },
            DType::U8 => match b {
                DType::Bool => false,
                DType::I8 => false,
                DType::I16 => true,
                DType::I32 => true,
                DType::I64 => true,
                DType::U8 => true,
                DType::U16 => true,
                DType::U32 => true,
                DType::U64 => true,
                DType::F16 => true,
                DType::BF16 => true,
                DType::F32 => true,
                DType::F64 => true,
                DType::C64 => true,
                DType::C128 => true,
            },
            DType::U16 => match b {
                DType::Bool => false,
                DType::I8 => false,
                DType::I16 => false,
                DType::I32 => true,
                DType::I64 => true,
                DType::U8 => false,
                DType::U16 => true,
                DType::U32 => true,
                DType::U64 => true,
                DType::F16 => false,
                DType::BF16 => false,
                DType::F32 => true,
                DType::F64 => true,
                DType::C64 => true,
                DType::C128 => true,
            },
            DType::U32 => match b {
                DType::Bool => false,
                DType::I8 => false,
                DType::I16 => false,
                DType::I32 => false,
                DType::I64 => true,
                DType::U8 => false,
                DType::U16 => false,
                DType::U32 => true,
                DType::U64 => true,
                DType::F16 => false,
                DType::BF16 => false,
                DType::F32 => false,
                DType::F64 => true,
                DType::C64 => false,
                DType::C128 => true,
            },
            DType::U64 => match b {
                DType::Bool => false,
                DType::I8 => false,
                DType::I16 => false,
                DType::I32 => false,
                DType::I64 => false,
                DType::U8 => false,
                DType::U16 => false,
                DType::U32 => false,
                DType::U64 => true,
                DType::F16 => false,
                DType::BF16 => false,
                DType::F32 => false,
                DType::F64 => true,
                DType::C64 => false,
                DType::C128 => true,
            },
            DType::F16 => match b {
                DType::Bool => false,
                DType::I8 => false,
                DType::I16 => false,
                DType::I32 => false,
                DType::I64 => false,
                DType::U8 => false,
                DType::U16 => false,
                DType::U32 => false,
                DType::U64 => false,
                DType::F16 => true,
                DType::BF16 => false,
                DType::F32 => true,
                DType::F64 => true,
                DType::C64 => true,
                DType::C128 => true,
            },
            DType::BF16 => match b {
                DType::Bool => false,
                DType::I8 => false,
                DType::I16 => false,
                DType::I32 => false,
                DType::I64 => false,
                DType::U8 => false,
                DType::U16 => false,
                DType::U32 => false,
                DType::U64 => false,
                DType::F16 => false,
                DType::BF16 => true,
                DType::F32 => true,
                DType::F64 => true,
                DType::C64 => true,
                DType::C128 => true,
            },
            DType::F32 => match b {
                DType::Bool => false,
                DType::I8 => false,
                DType::I16 => false,
                DType::I32 => false,
                DType::I64 => false,
                DType::U8 => false,
                DType::U16 => false,
                DType::U32 => false,
                DType::U64 => false,
                DType::F16 => false,
                DType::BF16 => false,
                DType::F32 => true,
                DType::F64 => true,
                DType::C64 => true,
                DType::C128 => true,
            },
            DType::F64 => match b {
                DType::Bool => false,
                DType::I8 => false,
                DType::I16 => false,
                DType::I32 => false,
                DType::I64 => false,
                DType::U8 => false,
                DType::U16 => false,
                DType::U32 => false,
                DType::U64 => false,
                DType::F16 => false,
                DType::BF16 => false,
                DType::F32 => false,
                DType::F64 => true,
                DType::C64 => false,
                DType::C128 => true,
            },
            DType::C64 => match b {
                DType::Bool => false,
                DType::I8 => false,
                DType::I16 => false,
                DType::I32 => false,
                DType::I64 => false,
                DType::U8 => false,
                DType::U16 => false,
                DType::U32 => false,
                DType::U64 => false,
                DType::F16 => false,
                DType::BF16 => false,
                DType::F32 => false,
                DType::F64 => false,
                DType::C64 => true,
                DType::C128 => true,
            },
            DType::C128 => match b {
                DType::Bool => false,
                DType::I8 => false,
                DType::I16 => false,
                DType::I32 => false,
                DType::I64 => false,
                DType::U8 => false,
                DType::U16 => false,
                DType::U32 => false,
                DType::U64 => false,
                DType::F16 => false,
                DType::BF16 => false,
                DType::F32 => false,
                DType::F64 => false,
                DType::C64 => false,
                DType::C128 => true,
            },
        },
        CastMode::SameKind => match a {
            DType::Bool => match b {
                DType::Bool => true,
                DType::I8 => false,
                DType::I16 => false,
                DType::I32 => false,
                DType::I64 => false,
                DType::U8 => false,
                DType::U16 => false,
                DType::U32 => false,
                DType::U64 => false,
                DType::F16 => false,
                DType::BF16 => false,
                DType::F32 => false,
                DType::F64 => false,
                DType::C64 => false,
                DType::C128 => false,
            },
            DType::I8 => match b {
                DType::Bool => false,
                DType::I8 => true,
                DType::I16 => true,
                DType::I32 => true,
                DType::I64 => true,
                DType::U8 => true,
                DType::U16 => true,
                DType::U32 => true,
                DType::U64 => true,
                DType::F16 => false,
                DType::BF16 => false,
                DType::F32 => false,
                DType::F64 => false,
                DType::C64 => false,
                DType::C128 => false,
            },
            DType::I16 => match b {
                DType::Bool => false,
                DType::I8 => true,
                DType::I16 => true,
                DType::I32 => true,
                DType::I64 => true,
                DType::U8 => true,
                DType::U16 => true,
                DType::U32 => true,
                DType::U64 => true,
                DType::F16 => false,
                DType::BF16 => false,
                DType::F32 => false,
                DType::F64 => false,
                DType::C64 => false,
                DType::C128 => false,
            },
            DType::I32 => match b {
                DType::Bool => false,
                DType::I8 => true,
                DType::I16 => true,
                DType::I32 => true,
                DType::I64 => true,
                DType::U8 => true,
                DType::U16 => true,
                DType::U32 => true,
                DType::U64 => true,
                DType::F16 => false,
                DType::BF16 => false,
                DType::F32 => false,
                DType::F64 => false,
                DType::C64 => false,
                DType::C128 => false,
            },
            DType::I64 => match b {
                DType::Bool => false,
                DType::I8 => true,
                DType::I16 => true,
                DType::I32 => true,
                DType::I64 => true,
                DType::U8 => true,
                DType::U16 => true,
                DType::U32 => true,
                DType::U64 => true,
                DType::F16 => false,
                DType::BF16 => false,
                DType::F32 => false,
                DType::F64 => false,
                DType::C64 => false,
                DType::C128 => false,
            },
            DType::U8 => match b {
                DType::Bool => false,
                DType::I8 => true,
                DType::I16 => true,
                DType::I32 => true,
                DType::I64 => true,
                DType::U8 => true,
                DType::U16 => true,
                DType::U32 => true,
                DType::U64 => true,
                DType::F16 => false,
                DType::BF16 => false,
                DType::F32 => false,
                DType::F64 => false,
                DType::C64 => false,
                DType::C128 => false,
            },
            DType::U16 => match b {
                DType::Bool => false,
                DType::I8 => true,
                DType::I16 => true,
                DType::I32 => true,
                DType::I64 => true,
                DType::U8 => true,
                DType::U16 => true,
                DType::U32 => true,
                DType::U64 => true,
                DType::F16 => false,
                DType::BF16 => false,
                DType::F32 => false,
                DType::F64 => false,
                DType::C64 => false,
                DType::C128 => false,
            },
            DType::U32 => match b {
                DType::Bool => false,
                DType::I8 => true,
                DType::I16 => true,
                DType::I32 => true,
                DType::I64 => true,
                DType::U8 => true,
                DType::U16 => true,
                DType::U32 => true,
                DType::U64 => true,
                DType::F16 => false,
                DType::BF16 => false,
                DType::F32 => false,
                DType::F64 => false,
                DType::C64 => false,
                DType::C128 => false,
            },
            DType::U64 => match b {
                DType::Bool => false,
                DType::I8 => true,
                DType::I16 => true,
                DType::I32 => true,
                DType::I64 => true,
                DType::U8 => true,
                DType::U16 => true,
                DType::U32 => true,
                DType::U64 => true,
                DType::F16 => false,
                DType::BF16 => false,
                DType::F32 => false,
                DType::F64 => false,
                DType::C64 => false,
                DType::C128 => false,
            },
            DType::F16 => match b {
                DType::Bool => false,
                DType::I8 => false,
                DType::I16 => false,
                DType::I32 => false,
                DType::I64 => false,
                DType::U8 => false,
                DType::U16 => false,
                DType::U32 => false,
                DType::U64 => false,
                DType::F16 => true,
                DType::BF16 => true,
                DType::F32 => true,
                DType::F64 => true,
                DType::C64 => false,
                DType::C128 => false,
            },
            DType::BF16 => match b {
                DType::Bool => false,
                DType::I8 => false,
                DType::I16 => false,
                DType::I32 => false,
                DType::I64 => false,
                DType::U8 => false,
                DType::U16 => false,
                DType::U32 => false,
                DType::U64 => false,
                DType::F16 => true,
                DType::BF16 => true,
                DType::F32 => true,
                DType::F64 => true,
                DType::C64 => false,
                DType::C128 => false,
            },
            DType::F32 => match b {
                DType::Bool => false,
                DType::I8 => false,
                DType::I16 => false,
                DType::I32 => false,
                DType::I64 => false,
                DType::U8 => false,
                DType::U16 => false,
                DType::U32 => false,
                DType::U64 => false,
                DType::F16 => true,
                DType::BF16 => true,
                DType::F32 => true,
                DType::F64 => true,
                DType::C64 => false,
                DType::C128 => false,
            },
            DType::F64 => match b {
                DType::Bool => false,
                DType::I8 => false,
                DType::I16 => false,
                DType::I32 => false,
                DType::I64 => false,
                DType::U8 => false,
                DType::U16 => false,
                DType::U32 => false,
                DType::U64 => false,
                DType::F16 => true,
                DType::BF16 => true,
                DType::F32 => true,
                DType::F64 => true,
                DType::C64 => false,
                DType::C128 => false,
            },
            DType::C64 => match b {
                DType::Bool => false,
                DType::I8 => false,
                DType::I16 => false,
                DType::I32 => false,
                DType::I64 => false,
                DType::U8 => false,
                DType::U16 => false,
                DType::U32 => false,
                DType::U64 => false,
                DType::F16 => false,
                DType::BF16 => false,
                DType::F32 => false,
                DType::F64 => false,
                DType::C64 => true,
                DType::C128 => true,
            },
            DType::C128 => match b {
                DType::Bool => false,
                DType::I8 => false,
                DType::I16 => false,
                DType::I32 => false,
                DType::I64 => false,
                DType::U8 => false,
                DType::U16 => false,
                DType::U32 => false,
                DType::U64 => false,
                DType::F16 => false,
                DType::BF16 => false,
                DType::F32 => false,
                DType::F64 => false,
                DType::C64 => true,
                DType::C128 => true,
            },
        },
        CastMode::Unsafe => true,
    }
}

/// The output dtype of an operation on `a` and `b`; always `Ok(promote(a, b))`.
pub fn result_type(a: DType, b: DType) -> (r: MohuResult<DType>)
    ensures
        r == Ok::<DType, MohuError>(spec_promote(a, b)),
{
    Ok(promote(a, b))
}

/// The common type of a sequence of dtypes.
///
/// Fails with `Internal` on an empty sequence.
pub fn common_type(dtypes: &[DType]) -> (r: MohuResult<DType>)
    ensures
        dtypes@.len() > 0 ==> r == Ok::<DType, MohuError>(promote_all(dtypes@)),
        dtypes@.len() == 0 ==> (r matches Err(MohuError::Internal(m)) && m@
            == "common_type called with empty dtype slice"@),
{
    if dtypes.len() == 0 {
        return Err(MohuError::Internal(string_of("common_type called with empty dtype slice")));
    }
    let mut acc = dtypes[0];
    let mut i: usize = 1;
    proof {
        assert(dtypes@.take(1).drop_last().len() == 0);
    }
    while i < dtypes.len()
        invariant
            1 <= i <= dtypes@.len(),
            acc == promote_all(dtypes@.take(i as int)),
        decreases dtypes@.len() - i,
    {
        proof {
            assert(dtypes@.take(i + 1).drop_last() =~= dtypes@.take(i as int));
        }
        acc = promote(acc, dtypes[i]);
        i = i + 1;
    }
    proof {
        assert(dtypes@.take(dtypes@.len() as int) =~= dtypes@);
    }
    Ok(acc)
}

/// Promotion with NumPy 2.0 "weak scalar" semantics: a weak integer scalar
/// with an integer array, or a weak float scalar with a float array, takes
/// the array dtype; everything else promotes normally.
pub fn weak_promote(array_dtype: DType, scalar_dtype: DType, is_scalar_weak: bool) -> (r: DType)
    ensures
        r == if !is_scalar_weak {
            spec_promote(array_dtype, scalar_dtype)
        } else if crate::dtype::spec_is_integer(scalar_dtype) && crate::dtype::spec_is_integer(array_dtype) {
            array_dtype
        } else if crate::dtype::spec_is_float(scalar_dtype) && crate::dtype::spec_is_float(array_dtype) {
            array_dtype
        } else {
            spec_promote(array_dtype, scalar_dtype)
        },
{
    if !is_scalar_weak {
        return promote(array_dtype, scalar_dtype);
    }
    if scalar_dtype.is_integer() && array_dtype.is_integer() {
        return array_dtype;
    }
    if scalar_dtype.is_float() && array_dtype.is_float() {
        return array_dtype;
    }
    promote(array_dtype, scalar_dtype)
}

/// Promotion is symmetric: `promote(a, b) == promote(b, a)`.
pub proof fn lemma_promote_commutative(a: DType, b: DType)
    ensures
        spec_promote(a, b) == spec_promote(b, a),
{
}

/// Every dtype promotes with itself to itself.
pub proof fn lemma_promote_idempotent(a: DType)
    ensures
        spec_promote(a, a) == a,
{
}

/// Both operands cast safely to their promoted dtype.
pub proof fn lemma_promote_safe(a: DType, b: DType)
    ensures
        safe_cast(a, spec_promote(a, b)),
        safe_cast(b, spec_promote(a, b)),
{
}

/// Every cast from a dtype to itself is allowed, whatever the mode.
pub proof fn lemma_cast_identity(a: DType, mode: CastMode)
    ensures
        spec_can_cast(a, a, mode),
{
}

/// `Bool` casts safely to every dtype.
pub proof fn lemma_bool_casts_safely(b: DType)
    ensures
        safe_cast(DType::Bool, b),
{
}


/// The promotion rules the library is built on: combining with a complex
/// type gives a complex type; combining a float with an integer or a float
/// gives a float or complex type; and the result is never narrower than
/// either input.
pub proof fn lemma_promote_kinds(a: DType, b: DType)
    ensures
        spec_is_complex(a) || spec_is_complex(b) ==> spec_is_complex(spec_promote(a, b)),
        spec_is_float(a) || spec_is_float(b) ==> spec_is_float(spec_promote(a, b)) || spec_is_complex(
            spec_promote(a, b),
        ),
        spec_itemsize(spec_promote(a, b)) >= spec_itemsize(a),
        spec_itemsize(spec_promote(a, b)) >= spec_itemsize(b),
{
}


// ─── What promotion and safe casting mean ────────────────────────────────────

/// The least value of an integer dtype (0 for the unsigned ones).
pub open spec fn int_lo(d: DType) -> int {
    match d {
        DType::I8 => -0x80,
        DType::I16 => -0x8000,
        DType::I32 => -0x8000_0000,
        DType::I64 => -0x8000_0000_0000_0000,
        _ => 0,
    }
}

/// The greatest value of an integer dtype.
pub open spec fn int_hi(d: DType) -> int {
    match d {
        DType::I8 => 0x7f,
        DType::I16 => 0x7fff,
        DType::I32 => 0x7fff_ffff,
        DType::I64 => 0x7fff_ffff_ffff_ffff,
        DType::U8 => 0xff,
        DType::U16 => 0xffff,
        DType::U32 => 0xffff_ffff,
        DType::U64 => 0xffff_ffff_ffff_ffff,
        _ => 0,
    }
}

/// The integer dtype `c` holds every value of the integer dtype `a`.
pub open spec fn int_holds(c: DType, a: DType) -> bool {
    spec_is_integer(c) && int_lo(c) <= int_lo(a) && int_hi(a) <= int_hi(c)
}

/// The largest magnitude up to which a float dtype (for a complex dtype,
/// each of its parts) represents every integer exactly: `2^p` for `p`
/// significand bits, the implicit one counted.
pub open spec fn exact_int_limit(d: DType) -> int {
    match d {
        DType::F16 => 0x800,
        DType::BF16 => 0x100,
        DType::F32 => 0x100_0000,
        DType::F64 => 0x20_0000_0000_0000,
        DType::C64 => 0x100_0000,
        DType::C128 => 0x20_0000_0000_0000,
        _ => 0,
    }
}

/// Two integer operands promote to the narrowest integer dtype holding
/// both: it holds every value of each, and every integer dtype that holds
/// both holds it. When no integer dtype holds both (a 64-bit unsigned one
/// with a signed one), they promote to `F64`.
pub proof fn lemma_promote_integers(a: DType, b: DType)
    requires
        spec_is_integer(a),
        spec_is_integer(b),
    ensures
        (exists|c: DType| int_holds(c, a) && int_holds(c, b)) ==> ({
            let p = spec_promote(a, b);
            &&& int_holds(p, a)
            &&& int_holds(p, b)
            &&& forall|c: DType| int_holds(c, a) && int_holds(c, b) ==> int_holds(c, p)
        }),
        !(exists|c: DType| int_holds(c, a) && int_holds(c, b)) ==> spec_promote(a, b) == DType::F64,
{
    if !(exists|c: DType| int_holds(c, a) && int_holds(c, b)) {
        assert(!(int_holds(DType::I64, a) && int_holds(DType::I64, b)));
        assert(!(int_holds(DType::U64, a) && int_holds(DType::U64, b)));
    } else {
        assert forall|c: DType| int_holds(c, a) && int_holds(c, b) implies int_holds(c, spec_promote(a, b)) by {
            match c {
                DType::I8 => {},
                DType::I16 => {},
                DType::I32 => {},
                DType::I64 => {},
                DType::U8 => {},
                DType::U16 => {},
                DType::U32 => {},
                DType::U64 => {},
                _ => {},
            }
        }
    }
}

/// A safe cast between integer dtypes is exactly one whose target holds
/// every value of its source.
pub proof fn lemma_safe_integer_casts(a: DType, b: DType)
    requires
        spec_is_integer(a),
        spec_is_integer(b),
    ensures
        spec_can_cast(a, b, CastMode::Safe) <==> int_holds(b, a),
{
}

/// A safe cast from an integer dtype to a float or complex one is exactly
/// one whose target represents every value of the source exactly, or
/// whose target is the widest (`F64`, `C128`), which every integer dtype
/// casts to safely.
pub proof fn lemma_safe_integer_to_float_casts(a: DType, b: DType)
    requires
        spec_is_integer(a),
        spec_is_float(b) || spec_is_complex(b),
    ensures
        spec_can_cast(a, b, CastMode::Safe) <==> (-exact_int_limit(b) <= int_lo(a) && int_hi(a) <= exact_int_limit(b))
            || exact_int_limit(b) == 0x20_0000_0000_0000,
{
}

/// No float or complex dtype casts safely to an integer dtype or to
/// `Bool`, and no complex dtype casts safely to a real one.
pub proof fn lemma_no_safe_narrowing_kinds(a: DType, b: DType)
    ensures
        (spec_is_float(a) || spec_is_complex(a)) && (spec_is_integer(b) || b == DType::Bool) ==> !spec_can_cast(
            a,
            b,
            CastMode::Safe,
        ),
        spec_is_complex(a) && spec_is_float(b) ==> !spec_can_cast(a, b, CastMode::Safe),
{
}


/// A same-kind cast is exactly one within a kind: `Bool` to `Bool`, an
/// integer to an integer, a real float to a real float, a complex to a
/// complex; an unsafe cast is always allowed.
pub proof fn lemma_same_kind_casts(a: DType, b: DType)
    ensures
        spec_can_cast(a, b, CastMode::SameKind) <==> (a == DType::Bool && b == DType::Bool) || (spec_is_integer(a)
            && spec_is_integer(b)) || (spec_is_float(a) && spec_is_float(b)) || (spec_is_complex(a)
            && spec_is_complex(b)),
        spec_can_cast(a, b, CastMode::Unsafe),
{
}

/// `Bool` is the identity of promotion: combined with any dtype it gives
/// that dtype.
pub proof fn lemma_promote_bool(a: DType)
    ensures
        spec_promote(DType::Bool, a) == a,
        spec_promote(a, DType::Bool) == a,
{
}

} // verus!

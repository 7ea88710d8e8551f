//! Integer type metadata, the counterpart of `numpy.iinfo`.
use vstd::prelude::*;
use crate::dtype::{spec_is_integer, spec_numpy_str, DType};
use crate::error::{MohuError, MohuResult};
use crate::text::string_of;

verus! {

/// Machine-range metadata for an integer `DType`.
#[derive(Debug, Clone, Copy, PartialEq, Eq, Hash, Structural)]
pub struct IntInfo {
    /// The `DType` this info describes.
    pub dtype: DType,
    /// Total number of bits.
    pub bits: u32,
    /// Whether this is a signed type.
    pub is_signed: bool,
    /// Minimum value (0 for unsigned types).
    pub min: i128,
    /// Maximum value.
    pub max: u128,
}

/// The metadata of an integer dtype.
pub open spec fn spec_int_info(d: DType) -> IntInfo {
    match d {
        DType::I8 => IntInfo { dtype: DType::I8, bits: 8, is_signed: true, min: -0x80i128, max: 0x7f },
        DType::I16 => IntInfo { dtype: DType::I16, bits: 16, is_signed: true, min: -0x8000i128, max: 0x7fff },
        DType::I32 => IntInfo { dtype: DType::I32, bits: 32, is_signed: true, min: -0x8000_0000i128, max: 0x7fff_ffff },
        DType::I64 => IntInfo {
            dtype: DType::I64,
            bits: 64,
            is_signed: true,
            min: -0x8000_0000_0000_0000i128,
            max: 0x7fff_ffff_ffff_ffff,
        },
        DType::U8 => IntInfo { dtype: DType::U8, bits: 8, is_signed: false, min: 0, max: 0xff },
        DType::U16 => IntInfo { dtype: DType::U16, bits: 16, is_signed: false, min: 0, max: 0xffff },
        DType::U32 => IntInfo { dtype: DType::U32, bits: 32, is_signed: false, min: 0, max: 0xffff_ffff },
        _ => IntInfo { dtype: DType::U64, bits: 64, is_signed: false, min: 0, max: 0xffff_ffff_ffff_ffff },
    }
}

impl IntInfo {
    /// The metadata of an integer dtype.
    ///
    /// Fails with `UnsupportedDType { op: "iinfo", .. }` for other dtypes.
    pub fn of(dtype: DType) -> (r: MohuResult<IntInfo>)
        ensures
            spec_is_integer(dtype) ==> r == Ok::<IntInfo, MohuError>(spec_int_info(dtype)),
            !spec_is_integer(dtype) ==> (r matches Err(MohuError::UnsupportedDType { op, dtype: name }) && op@
                == "iinfo"@ && name@ == spec_numpy_str(dtype)),
    {
        match dtype {
            DType::I8 => Ok(IntInfo::i8()),
            DType::I16 => Ok(IntInfo::i16()),
            DType::I32 => Ok(IntInfo::i32()),
            DType::I64 => Ok(IntInfo::i64()),
            DType::U8 => Ok(IntInfo::u8()),
            DType::U16 => Ok(IntInfo::u16()),
            DType::U32 => Ok(IntInfo::u32()),
            DType::U64 => Ok(IntInfo::u64()),
            other => Err(MohuError::UnsupportedDType { op: "iinfo", dtype: other.to_string() }),
        }
    }

    /// Metadata of `i8`.
    pub fn i8() -> (r: IntInfo)
        ensures
            r == spec_int_info(DType::I8),
    {
        IntInfo { dtype: DType::I8, bits: 8, is_signed: true, min: i8::MIN as i128, max: i8::MAX as u128 }
    }

    /// Metadata of `i16`.
    pub fn i16() -> (r: IntInfo)
        ensures
            r == spec_int_info(DType::I16),
    {
        IntInfo { dtype: DType::I16, bits: 16, is_signed: true, min: i16::MIN as i128, max: i16::MAX as u128 }
    }

    /// Metadata of `i32`.
    pub fn i32() -> (r: IntInfo)
        ensures
            r == spec_int_info(DType::I32),
    {
        IntInfo { dtype: DType::I32, bits: 32, is_signed: true, min: i32::MIN as i128, max: i32::MAX as u128 }
    }

    /// Metadata of `i64`.
    pub fn i64() -> (r: IntInfo)
        ensures
            r == spec_int_info(DType::I64),
    {
        IntInfo { dtype: DType::I64, bits: 64, is_signed: true, min: i64::MIN as i128, max: i64::MAX as u128 }
    }

    /// Metadata of `u8`.
    pub fn u8() -> (r: IntInfo)
        ensures
            r == spec_int_info(DType::U8),
    {
        IntInfo { dtype: DType::U8, bits: 8, is_signed: false, min: 0, max: u8::MAX as u128 }
    }

    /// Metadata of `u16`.
    pub fn u16() -> (r: IntInfo)
        ensures
            r == spec_int_info(DType::U16),
    {
        IntInfo { dtype: DType::U16, bits: 16, is_signed: false, min: 0, max: u16::MAX as u128 }
    }

    /// Metadata of `u32`.
    pub fn u32() -> (r: IntInfo)
        ensures
            r == spec_int_info(DType::U32),
    {
        IntInfo { dtype: DType::U32, bits: 32, is_signed: false, min: 0, max: u32::MAX as u128 }
    }

    /// Metadata of `u64`.
    pub fn u64() -> (r: IntInfo)
        ensures
            r == spec_int_info(DType::U64),
    {
        IntInfo { dtype: DType::U64, bits: 64, is_signed: false, min: 0, max: u64::MAX as u128 }
    }

    /// Returns `true` if `v` lies in `[min, max]`.
    pub fn can_hold_i128(self, v: i128) -> (r: bool)
        ensures
            r == (self.min <= v && v <= self.max),
    {
        v >= self.min && (v < 0 || (v as u128) <= self.max)
    }

    /// Returns `true` if `v <= max`.
    pub fn can_hold_u128(self, v: u128) -> (r: bool)
        ensures
            r == (v <= self.max),
    {
        v <= self.max
    }

    /// The smallest signed integer dtype holding `v`.
    pub fn minimum_signed_type_for(v: i64) -> (r: DType)
        ensures
            r == min_signed_dtype(v),
    {
        if v >= i8::MIN as i64 && v <= i8::MAX as i64 {
            return DType::I8;
        }
        if v >= i16::MIN as i64 && v <= i16::MAX as i64 {
            return DType::I16;
        }
        if v >= i32::MIN as i64 && v <= i32::MAX as i64 {
            return DType::I32;
        }
        DType::I64
    }

    /// The smallest unsigned integer dtype holding `v`.
    pub fn minimum_unsigned_type_for(v: u64) -> (r: DType)
        ensures
            r == min_unsigned_dtype(v),
    {
        if v <= u8::MAX as u64 {
            return DType::U8;
        }
        if v <= u16::MAX as u64 {
            return DType::U16;
        }
        if v <= u32::MAX as u64 {
            return DType::U32;
        }
        DType::U64
    }
}

/// The smallest signed integer dtype whose range contains `v`.
pub open spec fn min_signed_dtype(v: i64) -> DType {
    if i8::MIN <= v <= i8::MAX {
        DType::I8
    } else if i16::MIN <= v <= i16::MAX {
        DType::I16
    } else if i32::MIN <= v <= i32::MAX {
        DType::I32
    } else {
        DType::I64
    }
}

/// The smallest unsigned integer dtype whose range contains `v`.
pub open spec fn min_unsigned_dtype(v: u64) -> DType {
    if v <= u8::MAX {
        DType::U8
    } else if v <= u16::MAX {
        DType::U16
    } else if v <= u32::MAX {
        DType::U32
    } else {
        DType::U64
    }
}

/// The dtype chosen for a value can hold it, and no narrower dtype of the
/// same signedness can.
pub proof fn lemma_minimum_type_holds(v: i64, u: u64)
    ensures
        spec_int_info(min_signed_dtype(v)).min <= v <= spec_int_info(min_signed_dtype(v)).max,
        spec_int_info(min_unsigned_dtype(u)).min <= u <= spec_int_info(min_unsigned_dtype(u)).max,
        spec_int_info(min_signed_dtype(v)).bits > 8 ==> !(i8::MIN <= v <= i8::MAX),
        spec_int_info(min_unsigned_dtype(u)).bits > 8 ==> u > u8::MAX,
{
}

} // verus!

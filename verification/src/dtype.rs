//! The runtime type tag of every element type the library supports.
use vstd::prelude::*;
use vstd::string::StringExecFns;
use crate::error::{MohuError, MohuResult};
use crate::text::{is_white_space, leading_ws, trailing_ws, ascii_lower, ascii_upper, lemma_lower_of_upper, lemma_trim_padded, lemma_upper_keeps_white_space, ascii_lower_chars, chars_equal, chars_of, decimal, push_decimal, string_of, trim, trim_str};

verus! {

/// The runtime type tag for every element type.
///
/// | Variant | Rust type        | Bytes | Alignment |
/// |---------|------------------|-------|-----------|
/// | Bool    | `bool`           |   1   |     1     |
/// | I8…I64  | `i8`…`i64`       | 1…8   |   1…8     |
/// | U8…U64  | `u8`…`u64`       | 1…8   |   1…8     |
/// | F16     | `half::f16`      |   2   |     2     |
/// | BF16    | `half::bf16`     |   2   |     2     |
/// | F32/F64 | `f32`/`f64`      | 4/8   |   4/8     |
/// | C64     | `Complex<f32>`   |   8   |     4     |
/// | C128    | `Complex<f64>`   |  16   |     8     |
///
/// The variant order gives the stable codes of [`DType::as_u8`].
#[derive(Debug, Clone, Copy, PartialEq, Eq, Hash, Structural)]
pub enum DType {
    Bool,
    I8,
    I16,
    I32,
    I64,
    U8,
    U16,
    U32,
    U64,
    F16,
    BF16,
    F32,
    F64,
    C64,
    C128,
}

/// Total number of `DType` variants.
pub const DTYPE_COUNT: usize = 15;

/// The element size in bytes of each dtype.
pub open spec fn spec_itemsize(d: DType) -> nat {
    match d {
        DType::Bool => 1,
        DType::I8 => 1,
        DType::I16 => 2,
        DType::I32 => 4,
        DType::I64 => 8,
        DType::U8 => 1,
        DType::U16 => 2,
        DType::U32 => 4,
        DType::U64 => 8,
        DType::F16 => 2,
        DType::BF16 => 2,
        DType::F32 => 4,
        DType::F64 => 8,
        DType::C64 => 8,
        DType::C128 => 16,
    }
}

/// The alignment in bytes of each dtype.
pub open spec fn spec_alignment(d: DType) -> nat {
    match d {
        DType::Bool => 1,
        DType::I8 => 1,
        DType::I16 => 2,
        DType::I32 => 4,
        DType::I64 => 8,
        DType::U8 => 1,
        DType::U16 => 2,
        DType::U32 => 4,
        DType::U64 => 8,
        DType::F16 => 2,
        DType::BF16 => 2,
        DType::F32 => 4,
        DType::F64 => 8,
        DType::C64 => 4,
        DType::C128 => 8,
    }
}

/// The canonical NumPy name of each dtype.
pub open spec fn spec_numpy_str(d: DType) -> Seq<char> {
    match d {
        DType::Bool => "bool"@,
        DType::I8 => "int8"@,
        DType::I16 => "int16"@,
        DType::I32 => "int32"@,
        DType::I64 => "int64"@,
        DType::U8 => "uint8"@,
        DType::U16 => "uint16"@,
        DType::U32 => "uint32"@,
        DType::U64 => "uint64"@,
        DType::F16 => "float16"@,
        DType::BF16 => "bfloat16"@,
        DType::F32 => "float32"@,
        DType::F64 => "float64"@,
        DType::C64 => "complex64"@,
        DType::C128 => "complex128"@,
    }
}

/// The NumPy type code of each dtype.
pub open spec fn spec_numpy_char(d: DType) -> Option<char> {
    match d {
        DType::Bool => Some('?'),
        DType::I8 => Some('b'),
        DType::I16 => Some('h'),
        DType::I32 => Some('i'),
        DType::I64 => Some('l'),
        DType::U8 => Some('B'),
        DType::U16 => Some('H'),
        DType::U32 => Some('I'),
        DType::U64 => Some('L'),
        DType::F16 => Some('e'),
        DType::BF16 => None,
        DType::F32 => Some('f'),
        DType::F64 => Some('d'),
        DType::C64 => Some('F'),
        DType::C128 => Some('D'),
    }
}

/// The array-interface kind character of each dtype.
pub open spec fn spec_kind_char(d: DType) -> char {
    match d {
        DType::Bool => 'b',
        DType::I8 => 'i',
        DType::I16 => 'i',
        DType::I32 => 'i',
        DType::I64 => 'i',
        DType::U8 => 'u',
        DType::U16 => 'u',
        DType::U32 => 'u',
        DType::U64 => 'u',
        DType::F16 => 'f',
        DType::BF16 => 'f',
        DType::F32 => 'f',
        DType::F64 => 'f',
        DType::C64 => 'c',
        DType::C128 => 'c',
    }
}

/// The next wider dtype of each dtype.
pub open spec fn spec_widen(d: DType) -> DType {
    match d {
        DType::Bool => DType::U8,
        DType::I8 => DType::I16,
        DType::I16 => DType::I32,
        DType::I32 => DType::I64,
        DType::I64 => DType::I64,
        DType::U8 => DType::U16,
        DType::U16 => DType::U32,
        DType::U32 => DType::U64,
        DType::U64 => DType::U64,
        DType::F16 => DType::F32,
        DType::BF16 => DType::F32,
        DType::F32 => DType::F64,
        DType::F64 => DType::F64,
        DType::C64 => DType::C128,
        DType::C128 => DType::C128,
    }
}

/// The next narrower dtype of each dtype.
pub open spec fn spec_narrow(d: DType) -> Option<DType> {
    match d {
        DType::Bool => None,
        DType::I8 => None,
        DType::I16 => Some(DType::I8),
        DType::I32 => Some(DType::I16),
        DType::I64 => Some(DType::I32),
        DType::U8 => None,
        DType::U16 => Some(DType::U8),
        DType::U32 => Some(DType::U16),
        DType::U64 => Some(DType::U32),
        DType::F16 => None,
        DType::BF16 => None,
        DType::F32 => Some(DType::F16),
        DType::F64 => Some(DType::F32),
        DType::C64 => None,
        DType::C128 => Some(DType::C64),
    }
}

/// The smallest lossless float dtype of each dtype.
pub open spec fn spec_to_float(d: DType) -> DType {
    match d {
        DType::Bool => DType::F16,
        DType::I8 => DType::F16,
        DType::I16 => DType::F32,
        DType::I32 => DType::F64,
        DType::I64 => DType::F64,
        DType::U8 => DType::F16,
        DType::U16 => DType::F32,
        DType::U32 => DType::F64,
        DType::U64 => DType::F64,
        DType::F16 => DType::F16,
        DType::BF16 => DType::BF16,
        DType::F32 => DType::F32,
        DType::F64 => DType::F64,
        DType::C64 => DType::C64,
        DType::C128 => DType::C128,
    }
}

/// The decimal digit count of each dtype.
pub open spec fn spec_max_decimal_digits(d: DType) -> Option<u32> {
    match d {
        DType::Bool => Some(1),
        DType::I8 => Some(3),
        DType::I16 => Some(5),
        DType::I32 => Some(10),
        DType::I64 => Some(20),
        DType::U8 => Some(3),
        DType::U16 => Some(5),
        DType::U32 => Some(10),
        DType::U64 => Some(20),
        DType::F16 => None,
        DType::BF16 => None,
        DType::F32 => None,
        DType::F64 => None,
        DType::C64 => None,
        DType::C128 => None,
    }
}

/// The stable numeric code of each dtype.
pub open spec fn spec_as_u8(d: DType) -> u8 {
    match d {
        DType::Bool => 0,
        DType::I8 => 1,
        DType::I16 => 2,
        DType::I32 => 3,
        DType::I64 => 4,
        DType::U8 => 5,
        DType::U16 => 6,
        DType::U32 => 7,
        DType::U64 => 8,
        DType::F16 => 9,
        DType::BF16 => 10,
        DType::F32 => 11,
        DType::F64 => 12,
        DType::C64 => 13,
        DType::C128 => 14,
    }
}

/// The array-interface type string of each dtype.
pub open spec fn spec_typestr(d: DType) -> Seq<char> {
    match d {
        DType::Bool => "|b1"@,
        DType::I8 => "|i1"@,
        DType::I16 => "<i2"@,
        DType::I32 => "<i4"@,
        DType::I64 => "<i8"@,
        DType::U8 => "|u1"@,
        DType::U16 => "<u2"@,
        DType::U32 => "<u4"@,
        DType::U64 => "<u8"@,
        DType::F16 => "<f2"@,
        DType::BF16 => "<f2"@,
        DType::F32 => "<f4"@,
        DType::F64 => "<f8"@,
        DType::C64 => "<c8"@,
        DType::C128 => "<c16"@,
    }
}

/// Integer dtypes, signed or unsigned.
pub open spec fn spec_is_integer(d: DType) -> bool {
    d is I8 || d is I16 || d is I32 || d is I64 || d is U8 || d is U16 || d is U32 || d is U64
}

/// Signed integer dtypes.
pub open spec fn spec_is_signed_integer(d: DType) -> bool {
    d is I8 || d is I16 || d is I32 || d is I64
}

/// Unsigned integer dtypes.
pub open spec fn spec_is_unsigned_integer(d: DType) -> bool {
    d is U8 || d is U16 || d is U32 || d is U64
}

/// Real floating-point dtypes.
pub open spec fn spec_is_float(d: DType) -> bool {
    d is F16 || d is BF16 || d is F32 || d is F64
}

/// Complex dtypes.
pub open spec fn spec_is_complex(d: DType) -> bool {
    d is C64 || d is C128
}


/// The dtype named by an already-trimmed string: the upper-case NumPy
/// codes `B`, `H`, `I`, `L`, `F`, `D` exactly, else a case-insensitive
/// canonical name, code, shorthand or alias.
pub open spec fn parse_name(t: Seq<char>) -> Option<DType> {
    if t == "B"@ {
        Some(DType::U8)
    }     else if t == "H"@ {
        Some(DType::U16)
    }     else if t == "I"@ {
        Some(DType::U32)
    }     else if t == "L"@ {
        Some(DType::U64)
    }     else if t == "F"@ {
        Some(DType::C64)
    }     else if t == "D"@ {
        Some(DType::C128)
    } else {
        let l = ascii_lower(t);
        if l == "bool"@ || l == "bool_"@ || l == "?"@ || l == "b1"@ {
            Some(DType::Bool)
        }         else if l == "int8"@ || l == "i1"@ || l == "b"@ || l == "byte"@ {
            Some(DType::I8)
        }         else if l == "int16"@ || l == "i2"@ || l == "h"@ || l == "short"@ {
            Some(DType::I16)
        }         else if l == "int32"@ || l == "i4"@ || l == "i"@ || l == "int"@ || l == "int_"@ {
            Some(DType::I32)
        }         else if l == "int64"@ || l == "i8"@ || l == "l"@ || l == "long"@ || l == "longlong"@ {
            Some(DType::I64)
        }         else if l == "uint8"@ || l == "u1"@ || l == "ubyte"@ {
            Some(DType::U8)
        }         else if l == "uint16"@ || l == "u2"@ || l == "ushort"@ {
            Some(DType::U16)
        }         else if l == "uint32"@ || l == "u4"@ || l == "uint"@ {
            Some(DType::U32)
        }         else if l == "uint64"@ || l == "u8"@ || l == "ulong"@ {
            Some(DType::U64)
        }         else if l == "float16"@ || l == "f2"@ || l == "half"@ || l == "f16"@ {
            Some(DType::F16)
        }         else if l == "bfloat16"@ || l == "bf16"@ {
            Some(DType::BF16)
        }         else if l == "float32"@ || l == "f4"@ || l == "float"@ || l == "single"@ || l == "f32"@ {
            Some(DType::F32)
        }         else if l == "float64"@ || l == "f8"@ || l == "double"@ || l == "f64"@ {
            Some(DType::F64)
        }         else if l == "complex64"@ || l == "c8"@ || l == "csingle"@ || l == "c64"@ {
            Some(DType::C64)
        }         else if l == "complex128"@ || l == "c16"@ || l == "cdouble"@ || l == "c128"@ {
            Some(DType::C128)
        } else {
            None
        }
    }
}

/// The message of the error raised for an unknown dtype code.
pub open spec fn unknown_code_text(code: nat) -> Seq<char> {
    "dtype code "@ + decimal(code)
}

impl DType {
    /// Size of one element in bytes.
    pub fn itemsize(self) -> (r: usize)
        ensures
            r == spec_itemsize(self),
    {
        match self {
            DType::Bool => 1,
            DType::I8 => 1,
            DType::I16 => 2,
            DType::I32 => 4,
            DType::I64 => 8,
            DType::U8 => 1,
            DType::U16 => 2,
            DType::U32 => 4,
            DType::U64 => 8,
            DType::F16 => 2,
            DType::BF16 => 2,
            DType::F32 => 4,
            DType::F64 => 8,
            DType::C64 => 8,
            DType::C128 => 16,
        }
    }

    /// Required pointer alignment in bytes (that of the matching Rust type).
    pub fn alignment(self) -> (r: usize)
        ensures
            r == spec_alignment(self),
    {
        match self {
            DType::Bool => 1,
            DType::I8 => 1,
            DType::I16 => 2,
            DType::I32 => 4,
            DType::I64 => 8,
            DType::U8 => 1,
            DType::U16 => 2,
            DType::U32 => 4,
            DType::U64 => 8,
            DType::F16 => 2,
            DType::BF16 => 2,
            DType::F32 => 4,
            DType::F64 => 8,
            DType::C64 => 4,
            DType::C128 => 8,
        }
    }

    /// The canonical NumPy dtype name, e.g. `"float32"`.
    pub fn numpy_str(self) -> (r: &'static str)
        ensures
            r@ == spec_numpy_str(self),
    {
        match self {
            DType::Bool => "bool",
            DType::I8 => "int8",
            DType::I16 => "int16",
            DType::I32 => "int32",
            DType::I64 => "int64",
            DType::U8 => "uint8",
            DType::U16 => "uint16",
            DType::U32 => "uint32",
            DType::U64 => "uint64",
            DType::F16 => "float16",
            DType::BF16 => "bfloat16",
            DType::F32 => "float32",
            DType::F64 => "float64",
            DType::C64 => "complex64",
            DType::C128 => "complex128",
        }
    }

    /// The single-character NumPy type code; `None` for BF16.
    pub fn numpy_char(self) -> (r: Option<char>)
        ensures
            r == spec_numpy_char(self),
    {
        match self {
            DType::Bool => Some('?'),
            DType::I8 => Some('b'),
            DType::I16 => Some('h'),
            DType::I32 => Some('i'),
            DType::I64 => Some('l'),
            DType::U8 => Some('B'),
            DType::U16 => Some('H'),
            DType::U32 => Some('I'),
            DType::U64 => Some('L'),
            DType::F16 => Some('e'),
            DType::BF16 => None,
            DType::F32 => Some('f'),
            DType::F64 => Some('d'),
            DType::C64 => Some('F'),
            DType::C128 => Some('D'),
        }
    }

    /// The array-interface kind character: `b`, `i`, `u`, `f` or `c`.
    pub fn kind_char(self) -> (r: char)
        ensures
            r == spec_kind_char(self),
    {
        match self {
            DType::Bool => 'b',
            DType::I8 => 'i',
            DType::I16 => 'i',
            DType::I32 => 'i',
            DType::I64 => 'i',
            DType::U8 => 'u',
            DType::U16 => 'u',
            DType::U32 => 'u',
            DType::U64 => 'u',
            DType::F16 => 'f',
            DType::BF16 => 'f',
            DType::F32 => 'f',
            DType::F64 => 'f',
            DType::C64 => 'c',
            DType::C128 => 'c',
        }
    }

    /// One step wider: Bool → U8, I32 → I64, F16/BF16 → F32, C64 → C128; the widest types stay.
    pub fn widen(self) -> (r: DType)
        ensures
            r == spec_widen(self),
    {
        match self {
            DType::Bool => DType::U8,
            DType::I8 => DType::I16,
            DType::I16 => DType::I32,
            DType::I32 => DType::I64,
            DType::I64 => DType::I64,
            DType::U8 => DType::U16,
            DType::U16 => DType::U32,
            DType::U32 => DType::U64,
            DType::U64 => DType::U64,
            DType::F16 => DType::F32,
            DType::BF16 => DType::F32,
            DType::F32 => DType::F64,
            DType::F64 => DType::F64,
            DType::C64 => DType::C128,
            DType::C128 => DType::C128,
        }
    }

    /// One step narrower; `None` for the narrowest types (Bool, I8, U8, F16, BF16).
    pub fn narrow(self) -> (r: Option<DType>)
        ensures
            r == spec_narrow(self),
    {
        match self {
            DType::Bool => None,
            DType::I8 => None,
            DType::I16 => Some(DType::I8),
            DType::I32 => Some(DType::I16),
            DType::I64 => Some(DType::I32),
            DType::U8 => None,
            DType::U16 => Some(DType::U8),
            DType::U32 => Some(DType::U16),
            DType::U64 => Some(DType::U32),
            DType::F16 => None,
            DType::BF16 => None,
            DType::F32 => Some(DType::F16),
            DType::F64 => Some(DType::F32),
            DType::C64 => None,
            DType::C128 => Some(DType::C64),
        }
    }

    /// The smallest float dtype holding every value of an integer dtype (Bool/I8/U8 → F16, I16/U16 → F32, wider → F64); floats and complex stay.
    pub fn to_float(self) -> (r: DType)
        ensures
            r == spec_to_float(self),
    {
        match self {
            DType::Bool => DType::F16,
            DType::I8 => DType::F16,
            DType::I16 => DType::F32,
            DType::I32 => DType::F64,
            DType::I64 => DType::F64,
            DType::U8 => DType::F16,
            DType::U16 => DType::F32,
            DType::U32 => DType::F64,
            DType::U64 => DType::F64,
            DType::F16 => DType::F16,
            DType::BF16 => DType::BF16,
            DType::F32 => DType::F32,
            DType::F64 => DType::F64,
            DType::C64 => DType::C64,
            DType::C128 => DType::C128,
        }
    }

    /// Number of significant decimal digits of integer dtypes (Bool counts 1); `None` otherwise.
    pub fn max_decimal_digits(self) -> (r: Option<u32>)
        ensures
            r == spec_max_decimal_digits(self),
    {
        match self {
            DType::Bool => Some(1),
            DType::I8 => Some(3),
            DType::I16 => Some(5),
            DType::I32 => Some(10),
            DType::I64 => Some(20),
            DType::U8 => Some(3),
            DType::U16 => Some(5),
            DType::U32 => Some(10),
            DType::U64 => Some(20),
            DType::F16 => None,
            DType::BF16 => None,
            DType::F32 => None,
            DType::F64 => None,
            DType::C64 => None,
            DType::C128 => None,
        }
    }

    /// The stable `u8` code of this dtype (Bool = 0 … C128 = 14).
    pub fn as_u8(self) -> (r: u8)
        ensures
            r == spec_as_u8(self),
    {
        match self {
            DType::Bool => 0,
            DType::I8 => 1,
            DType::I16 => 2,
            DType::I32 => 3,
            DType::I64 => 4,
            DType::U8 => 5,
            DType::U16 => 6,
            DType::U32 => 7,
            DType::U64 => 8,
            DType::F16 => 9,
            DType::BF16 => 10,
            DType::F32 => 11,
            DType::F64 => 12,
            DType::C64 => 13,
            DType::C128 => 14,
        }
    }

    /// The array-interface type string as a literal.
    fn typestr_literal(self) -> (r: &'static str)
        ensures
            r@ == spec_typestr(self),
    {
        match self {
            DType::Bool => "|b1",
            DType::I8 => "|i1",
            DType::I16 => "<i2",
            DType::I32 => "<i4",
            DType::I64 => "<i8",
            DType::U8 => "|u1",
            DType::U16 => "<u2",
            DType::U32 => "<u4",
            DType::U64 => "<u8",
            DType::F16 => "<f2",
            DType::BF16 => "<f2",
            DType::F32 => "<f4",
            DType::F64 => "<f8",
            DType::C64 => "<c8",
            DType::C128 => "<c16",
        }
    }

    /// Width of one element in bits.
    pub fn bit_width(self) -> (r: u32)
        ensures
            r == spec_itemsize(self) * 8,
    {
        (self.itemsize() * 8) as u32
    }

    /// Returns `true` for `Bool`.
    pub fn is_bool(self) -> (r: bool)
        ensures
            r == (self is Bool),
    {
        matches!(self, DType::Bool)
    }

    /// Returns `true` for any integer dtype.
    pub fn is_integer(self) -> (r: bool)
        ensures
            r == spec_is_integer(self),
    {
        matches!(self, DType::I8 | DType::I16 | DType::I32 | DType::I64 | DType::U8 | DType::U16 | DType::U32 | DType::U64)
    }

    /// Returns `true` for a signed integer dtype.
    pub fn is_signed_integer(self) -> (r: bool)
        ensures
            r == spec_is_signed_integer(self),
    {
        matches!(self, DType::I8 | DType::I16 | DType::I32 | DType::I64)
    }

    /// Returns `true` for an unsigned integer dtype.
    pub fn is_unsigned_integer(self) -> (r: bool)
        ensures
            r == spec_is_unsigned_integer(self),
    {
        matches!(self, DType::U8 | DType::U16 | DType::U32 | DType::U64)
    }

    /// Returns `true` for a real float dtype (F16, BF16, F32, F64).
    pub fn is_float(self) -> (r: bool)
        ensures
            r == spec_is_float(self),
    {
        matches!(self, DType::F16 | DType::BF16 | DType::F32 | DType::F64)
    }

    /// Returns `true` for a complex dtype (C64, C128).
    pub fn is_complex(self) -> (r: bool)
        ensures
            r == spec_is_complex(self),
    {
        matches!(self, DType::C64 | DType::C128)
    }

    /// Returns `true` for any floating-point dtype, complex included.
    pub fn is_floating_point(self) -> (r: bool)
        ensures
            r == (spec_is_float(self) || spec_is_complex(self)),
    {
        self.is_float() || self.is_complex()
    }

    /// Returns `true` for every dtype but `Bool`.
    pub fn is_numeric(self) -> (r: bool)
        ensures
            r == !(self is Bool),
    {
        !matches!(self, DType::Bool)
    }

    /// Returns `true` for totally ordered dtypes: integers and real floats.
    pub fn is_ordered(self) -> (r: bool)
        ensures
            r == (spec_is_integer(self) || spec_is_float(self)),
    {
        self.is_integer() || self.is_float()
    }

    /// Returns `true` for F32 and F64.
    pub fn is_standard_float(self) -> (r: bool)
        ensures
            r == (self is F32 || self is F64),
    {
        matches!(self, DType::F32 | DType::F64)
    }

    /// Returns `true` for BF16.
    pub fn is_brain_float(self) -> (r: bool)
        ensures
            r == (self is BF16),
    {
        matches!(self, DType::BF16)
    }

    /// The component dtype of a complex dtype (C64 → F32, C128 → F64); others stay.
    pub fn real_dtype(self) -> (r: DType)
        ensures
            r == (match self {
                DType::C64 => DType::F32,
                DType::C128 => DType::F64,
                other => other,
            }),
    {
        match self {
            DType::C64 => DType::F32,
            DType::C128 => DType::F64,
            other => other,
        }
    }

    /// The complex dtype of a real float dtype (F32 → C64, F64 → C128); others stay.
    pub fn complex_dtype(self) -> (r: DType)
        ensures
            r == (match self {
                DType::F32 => DType::C64,
                DType::F64 => DType::C128,
                other => other,
            }),
    {
        match self {
            DType::F32 => DType::C64,
            DType::F64 => DType::C128,
            other => other,
        }
    }

    /// The same-width signed integer of an unsigned one; others stay.
    pub fn as_signed(self) -> (r: DType)
        ensures
            r == (match self {
                DType::U8 => DType::I8,
                DType::U16 => DType::I16,
                DType::U32 => DType::I32,
                DType::U64 => DType::I64,
                other => other,
            }),
    {
        match self {
            DType::U8 => DType::I8,
            DType::U16 => DType::I16,
            DType::U32 => DType::I32,
            DType::U64 => DType::I64,
            other => other,
        }
    }

    /// The same-width unsigned integer of a signed one; others stay.
    pub fn as_unsigned(self) -> (r: DType)
        ensures
            r == (match self {
                DType::I8 => DType::U8,
                DType::I16 => DType::U16,
                DType::I32 => DType::U32,
                DType::I64 => DType::U64,
                other => other,
            }),
    {
        match self {
            DType::I8 => DType::U8,
            DType::I16 => DType::U16,
            DType::I32 => DType::U32,
            DType::I64 => DType::U64,
            other => other,
        }
    }

    /// The array-interface type string, e.g. `"<f4"` (little-endian F32),
    /// `"|b1"` (Bool).
    pub fn array_interface_typestr(self) -> (r: String)
        ensures
            r@ == spec_typestr(self),
    {
        string_of(self.typestr_literal())
    }

    /// The canonical NumPy name as an owned string (the `Display` text).
    pub fn to_string(self) -> (r: String)
        ensures
            r@ == spec_numpy_str(self),
    {
        string_of(self.numpy_str())
    }

    /// The dtype with stable code `code`.
    ///
    /// Fails with `UnknownDType("dtype code {code}")` for codes above 14.
    pub fn from_u8(code: u8) -> (r: MohuResult<DType>)
        ensures
            code < 15 ==> (r matches Ok(d) && spec_as_u8(d) == code),
            code >= 15 ==> (r matches Err(MohuError::UnknownDType(m)) && m@ == unknown_code_text(code as nat)),
    {
        match code {
            0 => Ok(DType::Bool),
            1 => Ok(DType::I8),
            2 => Ok(DType::I16),
            3 => Ok(DType::I32),
            4 => Ok(DType::I64),
            5 => Ok(DType::U8),
            6 => Ok(DType::U16),
            7 => Ok(DType::U32),
            8 => Ok(DType::U64),
            9 => Ok(DType::F16),
            10 => Ok(DType::BF16),
            11 => Ok(DType::F32),
            12 => Ok(DType::F64),
            13 => Ok(DType::C64),
            14 => Ok(DType::C128),
            n => {
                let mut m = string_of("dtype code ");
                push_decimal(&mut m, n as u64);
                Err(MohuError::UnknownDType(m))
            },
        }
    }

    /// Parses a dtype from a NumPy-compatible string.
    ///
    /// Surrounding white space is ignored.  The upper-case codes `B`
    /// (uint8), `H` (uint16), `I` (uint32), `L` (uint64), `F` (complex64)
    /// and `D` (complex128) are case-sensitive; every other canonical name,
    /// code, shorthand and alias is matched case-insensitively.  Fails with
    /// `UnknownDType` holding the trimmed text.
    pub fn parse(s: &str) -> (r: MohuResult<DType>)
        ensures
            parse_name(trim(s@)) matches Some(d) ==> r == Ok::<DType, MohuError>(d),
            parse_name(trim(s@)) is None ==> (r matches Err(MohuError::UnknownDType(m)) && m@ == trim(s@)),
    {
        let t = trim_str(s);
        let tc = chars_of(t);
        if chars_equal(tc.as_slice(), "B") {
            return Ok(DType::U8);
        }
        if chars_equal(tc.as_slice(), "H") {
            return Ok(DType::U16);
        }
        if chars_equal(tc.as_slice(), "I") {
            return Ok(DType::U32);
        }
        if chars_equal(tc.as_slice(), "L") {
            return Ok(DType::U64);
        }
        if chars_equal(tc.as_slice(), "F") {
            return Ok(DType::C64);
        }
        if chars_equal(tc.as_slice(), "D") {
            return Ok(DType::C128);
        }
        let l = ascii_lower_chars(tc.as_slice());
        let ls = l.as_slice();
        if chars_equal(ls, "bool") || chars_equal(ls, "bool_") || chars_equal(ls, "?") || chars_equal(ls, "b1") {
            return Ok(DType::Bool);
        }
        if chars_equal(ls, "int8") || chars_equal(ls, "i1") || chars_equal(ls, "b") || chars_equal(ls, "byte") {
            return Ok(DType::I8);
        }
        if chars_equal(ls, "int16") || chars_equal(ls, "i2") || chars_equal(ls, "h") || chars_equal(ls, "short") {
            return Ok(DType::I16);
        }
        if chars_equal(ls, "int32") || chars_equal(ls, "i4") || chars_equal(ls, "i") || chars_equal(ls, "int") || chars_equal(ls, "int_") {
            return Ok(DType::I32);
        }
        if chars_equal(ls, "int64") || chars_equal(ls, "i8") || chars_equal(ls, "l") || chars_equal(ls, "long") || chars_equal(ls, "longlong") {
            return Ok(DType::I64);
        }
        if chars_equal(ls, "uint8") || chars_equal(ls, "u1") || chars_equal(ls, "ubyte") {
            return Ok(DType::U8);
        }
        if chars_equal(ls, "uint16") || chars_equal(ls, "u2") || chars_equal(ls, "ushort") {
            return Ok(DType::U16);
        }
        if chars_equal(ls, "uint32") || chars_equal(ls, "u4") || chars_equal(ls, "uint") {
            return Ok(DType::U32);
        }
        if chars_equal(ls, "uint64") || chars_equal(ls, "u8") || chars_equal(ls, "ulong") {
            return Ok(DType::U64);
        }
        if chars_equal(ls, "float16") || chars_equal(ls, "f2") || chars_equal(ls, "half") || chars_equal(ls, "f16") {
            return Ok(DType::F16);
        }
        if chars_equal(ls, "bfloat16") || chars_equal(ls, "bf16") {
            return Ok(DType::BF16);
        }
        if chars_equal(ls, "float32") || chars_equal(ls, "f4") || chars_equal(ls, "float") || chars_equal(ls, "single") || chars_equal(ls, "f32") {
            return Ok(DType::F32);
        }
        if chars_equal(ls, "float64") || chars_equal(ls, "f8") || chars_equal(ls, "double") || chars_equal(ls, "f64") {
            return Ok(DType::F64);
        }
        if chars_equal(ls, "complex64") || chars_equal(ls, "c8") || chars_equal(ls, "csingle") || chars_equal(ls, "c64") {
            return Ok(DType::C64);
        }
        if chars_equal(ls, "complex128") || chars_equal(ls, "c16") || chars_equal(ls, "cdouble") || chars_equal(ls, "c128") {
            return Ok(DType::C128);
        }
        Err(MohuError::UnknownDType(string_of(t)))
    }

    /// All variants in definition order.
    pub fn all() -> (r: Vec<DType>)
        ensures
            r@.len() == 15,
            forall|i: int| 0 <= i < 15 ==> spec_as_u8(#[trigger] r@[i]) == i,
    {
        let mut v: Vec<DType> = Vec::new();
        let mut i: u8 = 0;
        while i < 15
            invariant
                i <= 15,
                v@.len() == i,
                forall|k: int| 0 <= k < i ==> spec_as_u8(#[trigger] v@[k]) == k,
            decreases 15 - i,
        {
            match DType::from_u8(i) {
                Ok(d) => v.push(d),
                Err(_) => {
                    proof {
                        assert(false);
                    }
                },
            }
            i = i + 1;
        }
        v
    }
}


/// Parsing the canonical NumPy name of a dtype gives the dtype back.
pub proof fn lemma_parse_numpy_str(d: DType)
    ensures
        parse_name(trim(spec_numpy_str(d))) == Some(d),
{
    let n = spec_numpy_str(d);
    assert(trim(n) == n) by {
        reveal_strlit("?");
        reveal_strlit("B");
        reveal_strlit("D");
        reveal_strlit("F");
        reveal_strlit("H");
        reveal_strlit("I");
        reveal_strlit("L");
        reveal_strlit("b");
        reveal_strlit("b1");
        reveal_strlit("bf16");
        reveal_strlit("bfloat16");
        reveal_strlit("bool");
        reveal_strlit("bool_");
        reveal_strlit("byte");
        reveal_strlit("c128");
        reveal_strlit("c16");
        reveal_strlit("c64");
        reveal_strlit("c8");
        reveal_strlit("cdouble");
        reveal_strlit("complex128");
        reveal_strlit("complex64");
        reveal_strlit("csingle");
        reveal_strlit("double");
        reveal_strlit("f16");
        reveal_strlit("f2");
        reveal_strlit("f32");
        reveal_strlit("f4");
        reveal_strlit("f64");
        reveal_strlit("f8");
        reveal_strlit("float");
        reveal_strlit("float16");
        reveal_strlit("float32");
        reveal_strlit("float64");
        reveal_strlit("h");
        reveal_strlit("half");
        reveal_strlit("i");
        reveal_strlit("i1");
        reveal_strlit("i2");
        reveal_strlit("i4");
        reveal_strlit("i8");
        reveal_strlit("int");
        reveal_strlit("int16");
        reveal_strlit("int32");
        reveal_strlit("int64");
        reveal_strlit("int8");
        reveal_strlit("int_");
        reveal_strlit("l");
        reveal_strlit("long");
        reveal_strlit("longlong");
        reveal_strlit("short");
        reveal_strlit("single");
        reveal_strlit("u1");
        reveal_strlit("u2");
        reveal_strlit("u4");
        reveal_strlit("u8");
        reveal_strlit("ubyte");
        reveal_strlit("uint");
        reveal_strlit("uint16");
        reveal_strlit("uint32");
        reveal_strlit("uint64");
        reveal_strlit("uint8");
        reveal_strlit("ulong");
        reveal_strlit("ushort");
        assert(n.len() > 0 && !is_white_space(n[0]) && !is_white_space(n.last()));
        assert(leading_ws(n) == 0);
        assert(trailing_ws(n) == 0);
        assert(n.subrange(0, n.len() as int) =~= n);
    }
    assert(ascii_lower(n) =~= n) by {
        reveal_strlit("?");
        reveal_strlit("B");
        reveal_strlit("D");
        reveal_strlit("F");
        reveal_strlit("H");
        reveal_strlit("I");
        reveal_strlit("L");
        reveal_strlit("b");
        reveal_strlit("b1");
        reveal_strlit("bf16");
        reveal_strlit("bfloat16");
        reveal_strlit("bool");
        reveal_strlit("bool_");
        reveal_strlit("byte");
        reveal_strlit("c128");
        reveal_strlit("c16");
        reveal_strlit("c64");
        reveal_strlit("c8");
        reveal_strlit("cdouble");
        reveal_strlit("complex128");
        reveal_strlit("complex64");
        reveal_strlit("csingle");
        reveal_strlit("double");
        reveal_strlit("f16");
        reveal_strlit("f2");
        reveal_strlit("f32");
        reveal_strlit("f4");
        reveal_strlit("f64");
        reveal_strlit("f8");
        reveal_strlit("float");
        reveal_strlit("float16");
        reveal_strlit("float32");
        reveal_strlit("float64");
        reveal_strlit("h");
        reveal_strlit("half");
        reveal_strlit("i");
        reveal_strlit("i1");
        reveal_strlit("i2");
        reveal_strlit("i4");
        reveal_strlit("i8");
        reveal_strlit("int");
        reveal_strlit("int16");
        reveal_strlit("int32");
        reveal_strlit("int64");
        reveal_strlit("int8");
        reveal_strlit("int_");
        reveal_strlit("l");
        reveal_strlit("long");
        reveal_strlit("longlong");
        reveal_strlit("short");
        reveal_strlit("single");
        reveal_strlit("u1");
        reveal_strlit("u2");
        reveal_strlit("u4");
        reveal_strlit("u8");
        reveal_strlit("ubyte");
        reveal_strlit("uint");
        reveal_strlit("uint16");
        reveal_strlit("uint32");
        reveal_strlit("uint64");
        reveal_strlit("uint8");
        reveal_strlit("ulong");
        reveal_strlit("ushort");
    }
    assert(parse_name(n) == Some(d)) by {
        reveal_strlit("?");
        reveal_strlit("B");
        reveal_strlit("D");
        reveal_strlit("F");
        reveal_strlit("H");
        reveal_strlit("I");
        reveal_strlit("L");
        reveal_strlit("b");
        reveal_strlit("b1");
        reveal_strlit("bf16");
        reveal_strlit("bfloat16");
        reveal_strlit("bool");
        reveal_strlit("bool_");
        reveal_strlit("byte");
        reveal_strlit("c128");
        reveal_strlit("c16");
        reveal_strlit("c64");
        reveal_strlit("c8");
        reveal_strlit("cdouble");
        reveal_strlit("complex128");
        reveal_strlit("complex64");
        reveal_strlit("csingle");
        reveal_strlit("double");
        reveal_strlit("f16");
        reveal_strlit("f2");
        reveal_strlit("f32");
        reveal_strlit("f4");
        reveal_strlit("f64");
        reveal_strlit("f8");
        reveal_strlit("float");
        reveal_strlit("float16");
        reveal_strlit("float32");
        reveal_strlit("float64");
        reveal_strlit("h");
        reveal_strlit("half");
        reveal_strlit("i");
        reveal_strlit("i1");
        reveal_strlit("i2");
        reveal_strlit("i4");
        reveal_strlit("i8");
        reveal_strlit("int");
        reveal_strlit("int16");
        reveal_strlit("int32");
        reveal_strlit("int64");
        reveal_strlit("int8");
        reveal_strlit("int_");
        reveal_strlit("l");
        reveal_strlit("long");
        reveal_strlit("longlong");
        reveal_strlit("short");
        reveal_strlit("single");
        reveal_strlit("u1");
        reveal_strlit("u2");
        reveal_strlit("u4");
        reveal_strlit("u8");
        reveal_strlit("ubyte");
        reveal_strlit("uint");
        reveal_strlit("uint16");
        reveal_strlit("uint32");
        reveal_strlit("uint64");
        reveal_strlit("uint8");
        reveal_strlit("ulong");
        reveal_strlit("ushort");
    }
}


/// Each dtype's stable code is below 15 and no two dtypes share one, so
/// reading a dtype back from its code gives the dtype.
pub proof fn lemma_as_u8_round_trip(d: DType, e: DType)
    ensures
        spec_as_u8(d) < 15,
        spec_as_u8(d) == spec_as_u8(e) ==> d == e,
{
}


/// The canonical name of a dtype is lower-case ASCII of at least four
/// characters, neither starting nor ending with white space.
proof fn lemma_numpy_str_plain(d: DType)
    ensures
        spec_numpy_str(d).len() >= 4,
        !is_white_space(spec_numpy_str(d)[0]),
        !is_white_space(spec_numpy_str(d).last()),
        ascii_lower(spec_numpy_str(d)) == spec_numpy_str(d),
{
    let n = spec_numpy_str(d);
    reveal_strlit("bool");
    reveal_strlit("int8");
    reveal_strlit("int16");
    reveal_strlit("int32");
    reveal_strlit("int64");
    reveal_strlit("uint8");
    reveal_strlit("uint16");
    reveal_strlit("uint32");
    reveal_strlit("uint64");
    reveal_strlit("float16");
    reveal_strlit("bfloat16");
    reveal_strlit("float32");
    reveal_strlit("float64");
    reveal_strlit("complex64");
    reveal_strlit("complex128");
    assert(ascii_lower(n) =~= n);
}

/// Names are matched ignoring surrounding white space and ASCII case: the
/// canonical name of every dtype, upper-cased and padded on both sides with
/// any white space, parses back to that dtype.
pub proof fn lemma_parse_padded_upper(d: DType, p: Seq<char>, q: Seq<char>)
    requires
        forall|i: int| 0 <= i < p.len() ==> is_white_space(#[trigger] p[i]),
        forall|i: int| 0 <= i < q.len() ==> is_white_space(#[trigger] q[i]),
    ensures
        parse_name(trim(p + ascii_upper(spec_numpy_str(d)) + q)) == Some(d),
{
    let n = spec_numpy_str(d);
    let u = ascii_upper(n);
    lemma_numpy_str_plain(d);
    lemma_upper_keeps_white_space(n, 0);
    lemma_upper_keeps_white_space(n, n.len() - 1);
    lemma_trim_padded(p, u, q);
    lemma_lower_of_upper(n);
    lemma_parse_numpy_str(d);
    assert(trim(n) == n) by {
        let e = Seq::<char>::empty();
        lemma_trim_padded(e, n, e);
        assert(e + n + e =~= n);
    }
    reveal_strlit("B");
    reveal_strlit("H");
    reveal_strlit("I");
    reveal_strlit("L");
    reveal_strlit("F");
    reveal_strlit("D");
    assert(u.len() >= 4);
}



/// NumPy type codes name dtypes by kind and size: a kind letter (`b`
/// boolean, `i` signed, `u` unsigned integer, `f` float, `c` complex)
/// followed by the element size in bytes parses to a dtype of that kind
/// and that itemsize.
pub proof fn lemma_parse_type_code(k: char, n: nat)
    requires
        (k == 'b' && n == 1) || (k == 'i' && n == 1) || (k == 'i' && n == 2) || (k == 'i' && n == 4) || (k == 'i' && n == 8) || (k == 'u' && n == 1) || (k == 'u' && n == 2) || (k == 'u' && n == 4) || (k == 'u' && n == 8) || (k == 'f' && n == 2) || (k == 'f' && n == 4) || (k == 'f' && n == 8) || (k == 'c' && n == 8) || (k == 'c' && n == 16),
    ensures
        parse_name(trim(seq![k] + decimal(n))) matches Some(d) && spec_kind_char(d) == k && spec_itemsize(d) == n,
{
    reveal_strlit("?");
    reveal_strlit("B");
    reveal_strlit("D");
    reveal_strlit("F");
    reveal_strlit("H");
    reveal_strlit("I");
    reveal_strlit("L");
    reveal_strlit("b");
    reveal_strlit("b1");
    reveal_strlit("bf16");
    reveal_strlit("bfloat16");
    reveal_strlit("bool");
    reveal_strlit("bool_");
    reveal_strlit("byte");
    reveal_strlit("c128");
    reveal_strlit("c16");
    reveal_strlit("c64");
    reveal_strlit("c8");
    reveal_strlit("cdouble");
    reveal_strlit("complex128");
    reveal_strlit("complex64");
    reveal_strlit("csingle");
    reveal_strlit("double");
    reveal_strlit("f16");
    reveal_strlit("f2");
    reveal_strlit("f32");
    reveal_strlit("f4");
    reveal_strlit("f64");
    reveal_strlit("f8");
    reveal_strlit("float");
    reveal_strlit("float16");
    reveal_strlit("float32");
    reveal_strlit("float64");
    reveal_strlit("h");
    reveal_strlit("half");
    reveal_strlit("i");
    reveal_strlit("i1");
    reveal_strlit("i2");
    reveal_strlit("i4");
    reveal_strlit("i8");
    reveal_strlit("int");
    reveal_strlit("int16");
    reveal_strlit("int32");
    reveal_strlit("int64");
    reveal_strlit("int8");
    reveal_strlit("int_");
    reveal_strlit("l");
    reveal_strlit("long");
    reveal_strlit("longlong");
    reveal_strlit("short");
    reveal_strlit("single");
    reveal_strlit("u1");
    reveal_strlit("u2");
    reveal_strlit("u4");
    reveal_strlit("u8");
    reveal_strlit("ubyte");
    reveal_strlit("uint");
    reveal_strlit("uint16");
    reveal_strlit("uint32");
    reveal_strlit("uint64");
    reveal_strlit("uint8");
    reveal_strlit("ulong");
    reveal_strlit("ushort");
    let t = seq![k] + decimal(n);
    assert(decimal(16) == seq!['1', '6']) by {
        assert(decimal(1) == seq!['1']);
    }
    assert(t.len() > 0 && !is_white_space(t[0]) && !is_white_space(t.last()));
    assert(leading_ws(t) == 0);
    assert(trailing_ws(t) == 0);
    assert(t.subrange(0, t.len() as int) =~= t);
    assert(trim(t) == t);
    if k == 'b' && n == 1 {
        assert(t =~= "b1"@);
        assert(ascii_lower(t) =~= t);
        assert(parse_name(t) == Some(DType::Bool));
    }
    if k == 'i' && n == 1 {
        assert(t =~= "i1"@);
        assert(ascii_lower(t) =~= t);
        assert(parse_name(t) == Some(DType::I8));
    }
    if k == 'i' && n == 2 {
        assert(t =~= "i2"@);
        assert(ascii_lower(t) =~= t);
        assert(parse_name(t) == Some(DType::I16));
    }
    if k == 'i' && n == 4 {
        assert(t =~= "i4"@);
        assert(ascii_lower(t) =~= t);
        assert(parse_name(t) == Some(DType::I32));
    }
    if k == 'i' && n == 8 {
        assert(t =~= "i8"@);
        assert(ascii_lower(t) =~= t);
        assert(parse_name(t) == Some(DType::I64));
    }
    if k == 'u' && n == 1 {
        assert(t =~= "u1"@);
        assert(ascii_lower(t) =~= t);
        assert(parse_name(t) == Some(DType::U8));
    }
    if k == 'u' && n == 2 {
        assert(t =~= "u2"@);
        assert(ascii_lower(t) =~= t);
        assert(parse_name(t) == Some(DType::U16));
    }
    if k == 'u' && n == 4 {
        assert(t =~= "u4"@);
        assert(ascii_lower(t) =~= t);
        assert(parse_name(t) == Some(DType::U32));
    }
    if k == 'u' && n == 8 {
        assert(t =~= "u8"@);
        assert(ascii_lower(t) =~= t);
        assert(parse_name(t) == Some(DType::U64));
    }
    if k == 'f' && n == 2 {
        assert(t =~= "f2"@);
        assert(ascii_lower(t) =~= t);
        assert(parse_name(t) == Some(DType::F16));
    }
    if k == 'f' && n == 4 {
        assert(t =~= "f4"@);
        assert(ascii_lower(t) =~= t);
        assert(parse_name(t) == Some(DType::F32));
    }
    if k == 'f' && n == 8 {
        assert(t =~= "f8"@);
        assert(ascii_lower(t) =~= t);
        assert(parse_name(t) == Some(DType::F64));
    }
    if k == 'c' && n == 8 {
        assert(t =~= "c8"@);
        assert(ascii_lower(t) =~= t);
        assert(parse_name(t) == Some(DType::C64));
    }
    if k == 'c' && n == 16 {
        assert(t =~= "c16"@);
        assert(ascii_lower(t) =~= t);
        assert(parse_name(t) == Some(DType::C128));
    }
}

} // verus!

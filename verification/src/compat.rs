//! Mappings between `DType` and the type codes of adjacent ecosystems:
//! the Python `struct` module, the PEP 3118 buffer protocol, ctypes, C and Rust.
use vstd::prelude::*;
use vstd::string::StrSliceExecFns;
use crate::dtype::{spec_numpy_str, DType};
use crate::error::{MohuError, MohuResult};
use crate::text::string_of;
use arrow::datatypes::DataType as ArrowDataType;

verus! {

/// Byte order used in serialised format strings.
#[derive(Debug, Clone, Copy, PartialEq, Eq, Hash, Structural)]
pub enum ByteOrder {
    /// The host CPU's native order.
    Native,
    /// Least significant byte first.
    Little,
    /// Most significant byte first.
    Big,
    /// Not applicable (single-byte types).
    NotApplicable,
}

/// `u16::from_ne_bytes`: 1 on a little-endian host, 256 on a big-endian one.
#[verifier::external_body]
fn u16_from_ne_bytes(b: [u8; 2]) -> (r: u16)
    ensures
        (b@ == seq![1u8, 0u8]) ==> (r == 1 || r == 256),
{
    u16::from_ne_bytes(b)
}

impl ByteOrder {
    /// The `struct`-module prefix character of this byte order.
    pub fn struct_prefix(self) -> (r: char)
        ensures
            r == (match self {
                ByteOrder::Native => '=',
                ByteOrder::Little => '<',
                ByteOrder::Big => '>',
                ByteOrder::NotApplicable => '|',
            }),
    {
        match self {
            ByteOrder::Native => '=',
            ByteOrder::Little => '<',
            ByteOrder::Big => '>',
            ByteOrder::NotApplicable => '|',
        }
    }

    /// `NotApplicable` for single-byte types, `Native` otherwise.
    pub fn for_itemsize(itemsize: usize) -> (r: ByteOrder)
        ensures
            r == (if itemsize == 1 { ByteOrder::NotApplicable } else { ByteOrder::Native }),
    {
        if itemsize == 1 {
            ByteOrder::NotApplicable
        } else {
            ByteOrder::Native
        }
    }

    /// Returns `true` if the host is little-endian: the native reading of
    /// the bytes `[1, 0]` is 1.
    pub fn host_is_little_endian() -> (r: bool) {
        u16_from_ne_bytes([1, 0]) == 1
    }

    /// `Little` for a little-endian host, else `Big`.
    pub fn of_host(little: bool) -> (r: ByteOrder)
        ensures
            r == (if little { ByteOrder::Little } else { ByteOrder::Big }),
    {
        if little {
            ByteOrder::Little
        } else {
            ByteOrder::Big
        }
    }

    /// The concrete byte order of the host: `Little` or `Big`, as
    /// [`ByteOrder::of_host`] gives it for the host's endianness.
    pub fn host() -> (r: ByteOrder)
        ensures
            r is Little || r is Big,
    {
        ByteOrder::of_host(ByteOrder::host_is_little_endian())
    }
}

/// The Python `struct` format character of each dtype (none for BF16 and complex).
pub open spec fn spec_struct_format_char(d: DType) -> Option<char> {
    match d {
        DType::Bool => Some('?'),
        DType::I8 => Some('b'),
        DType::I16 => Some('h'),
        DType::I32 => Some('i'),
        DType::I64 => Some('q'),
        DType::U8 => Some('B'),
        DType::U16 => Some('H'),
        DType::U32 => Some('I'),
        DType::U64 => Some('Q'),
        DType::F16 => Some('e'),
        DType::BF16 => None,
        DType::F32 => Some('f'),
        DType::F64 => Some('d'),
        DType::C64 => None,
        DType::C128 => None,
    }
}

/// The PEP 3118 buffer format string of each dtype.
pub open spec fn spec_buffer_format(d: DType) -> Seq<char> {
    match d {
        DType::Bool => "|?"@,
        DType::I8 => "|b"@,
        DType::I16 => "<h"@,
        DType::I32 => "<i"@,
        DType::I64 => "<q"@,
        DType::U8 => "|B"@,
        DType::U16 => "<H"@,
        DType::U32 => "<I"@,
        DType::U64 => "<Q"@,
        DType::F16 => "<e"@,
        DType::BF16 => "<e"@,
        DType::F32 => "<f"@,
        DType::F64 => "<d"@,
        DType::C64 => "<Zf"@,
        DType::C128 => "<Zd"@,
    }
}

/// The Python `ctypes` type name of each dtype, if ctypes has one.
pub open spec fn spec_ctypes_name(d: DType) -> Option<Seq<char>> {
    match d {
        DType::Bool => Some("c_bool"@),
        DType::I8 => Some("c_int8"@),
        DType::I16 => Some("c_int16"@),
        DType::I32 => Some("c_int32"@),
        DType::I64 => Some("c_int64"@),
        DType::U8 => Some("c_uint8"@),
        DType::U16 => Some("c_uint16"@),
        DType::U32 => Some("c_uint32"@),
        DType::U64 => Some("c_uint64"@),
        DType::F16 => None,
        DType::BF16 => None,
        DType::F32 => Some("c_float"@),
        DType::F64 => Some("c_double"@),
        DType::C64 => None,
        DType::C128 => None,
    }
}

/// The C type name of each dtype.
pub open spec fn spec_c_type_name(d: DType) -> Seq<char> {
    match d {
        DType::Bool => "_Bool"@,
        DType::I8 => "int8_t"@,
        DType::I16 => "int16_t"@,
        DType::I32 => "int32_t"@,
        DType::I64 => "int64_t"@,
        DType::U8 => "uint8_t"@,
        DType::U16 => "uint16_t"@,
        DType::U32 => "uint32_t"@,
        DType::U64 => "uint64_t"@,
        DType::F16 => "__fp16"@,
        DType::BF16 => "__bfloat16"@,
        DType::F32 => "float"@,
        DType::F64 => "double"@,
        DType::C64 => "float _Complex"@,
        DType::C128 => "double _Complex"@,
    }
}

/// The Rust type name of each dtype.
pub open spec fn spec_rust_type_name(d: DType) -> Seq<char> {
    match d {
        DType::Bool => "bool"@,
        DType::I8 => "i8"@,
        DType::I16 => "i16"@,
        DType::I32 => "i32"@,
        DType::I64 => "i64"@,
        DType::U8 => "u8"@,
        DType::U16 => "u16"@,
        DType::U32 => "u32"@,
        DType::U64 => "u64"@,
        DType::F16 => "half::f16"@,
        DType::BF16 => "half::bf16"@,
        DType::F32 => "f32"@,
        DType::F64 => "f64"@,
        DType::C64 => "num_complex::Complex<f32>"@,
        DType::C128 => "num_complex::Complex<f64>"@,
    }
}

/// The dtype of a one-character buffer format code.
pub open spec fn format_char_dtype(c: char) -> Option<DType> {
    if c == '?' {
        Some(DType::Bool)
    } else if c == 'b' {
        Some(DType::I8)
    } else if c == 'B' {
        Some(DType::U8)
    } else if c == 'h' {
        Some(DType::I16)
    } else if c == 'H' {
        Some(DType::U16)
    } else if c == 'i' || c == 'l' {
        Some(DType::I32)
    } else if c == 'I' || c == 'L' {
        Some(DType::U32)
    } else if c == 'q' || c == 'n' {
        Some(DType::I64)
    } else if c == 'Q' || c == 'N' {
        Some(DType::U64)
    } else if c == 'e' {
        Some(DType::F16)
    } else if c == 'f' {
        Some(DType::F32)
    } else if c == 'd' {
        Some(DType::F64)
    } else {
        None
    }
}

/// The dtype of a buffer format code with its endian prefix removed:
/// a one-character code, or `Zf` / `Zd` for the complex dtypes.
pub open spec fn format_code_dtype(c: Seq<char>) -> Option<DType> {
    if c.len() == 1 {
        format_char_dtype(c[0])
    } else if c.len() == 2 && c[0] == 'Z' && c[1] == 'f' {
        Some(DType::C64)
    } else if c.len() == 2 && c[0] == 'Z' && c[1] == 'd' {
        Some(DType::C128)
    } else {
        None
    }
}

/// Characters stripped from the front of a buffer format string.
pub open spec fn is_endian_char(c: char) -> bool {
    c == '<' || c == '>' || c == '=' || c == '@' || c == '!' || c == '|' || c == ' '
}

/// Number of leading endian characters of a format string.
pub open spec fn leading_endian(s: Seq<char>) -> nat
    decreases s.len(),
{
    if s.len() > 0 && is_endian_char(s[0]) {
        1 + leading_endian(s.drop_first())
    } else {
        0
    }
}

/// A buffer format string with its leading endian characters removed.
pub open spec fn strip_endian(s: Seq<char>) -> Seq<char> {
    s.subrange(leading_endian(s) as int, s.len() as int)
}

proof fn lemma_leading_endian(s: Seq<char>, a: int)
    requires
        0 <= a <= s.len(),
        forall|i: int| 0 <= i < a ==> is_endian_char(#[trigger] s[i]),
        a == s.len() || !is_endian_char(s[a]),
    ensures
        leading_endian(s) == a,
    decreases a,
{
    if a > 0 {
        let t = s.drop_first();
        assert forall|i: int| 0 <= i < a - 1 implies is_endian_char(#[trigger] t[i]) by {
            assert(t[i] == s[i + 1]);
        }
        if a < s.len() {
            assert(t[a - 1] == s[a]);
        }
        lemma_leading_endian(t, a - 1);
    }
}

fn char_is_endian(c: char) -> (r: bool)
    ensures
        r == is_endian_char(c),
{
    c == '<' || c == '>' || c == '=' || c == '@' || c == '!' || c == '|' || c == ' '
}

impl DType {
    /// The Python `struct` format character, without endian prefix; `None` for BF16 and complex dtypes.
    pub fn struct_format_char(self) -> (r: Option<char>)
        ensures
            r == spec_struct_format_char(self),
    {
        match self {
            DType::Bool => Some('?'),
            DType::I8 => Some('b'),
            DType::I16 => Some('h'),
            DType::I32 => Some('i'),
            DType::I64 => Some('q'),
            DType::U8 => Some('B'),
            DType::U16 => Some('H'),
            DType::U32 => Some('I'),
            DType::U64 => Some('Q'),
            DType::F16 => Some('e'),
            DType::BF16 => None,
            DType::F32 => Some('f'),
            DType::F64 => Some('d'),
            DType::C64 => None,
            DType::C128 => None,
        }
    }

    /// The PEP 3118 buffer-protocol format string, with endian prefix (`<` or `|`); complex dtypes use `Z`, BF16 is sent as `e`.
    pub fn buffer_format(self) -> (r: &'static str)
        ensures
            r@ == spec_buffer_format(self),
    {
        match self {
            DType::Bool => "|?",
            DType::I8 => "|b",
            DType::I16 => "<h",
            DType::I32 => "<i",
            DType::I64 => "<q",
            DType::U8 => "|B",
            DType::U16 => "<H",
            DType::U32 => "<I",
            DType::U64 => "<Q",
            DType::F16 => "<e",
            DType::BF16 => "<e",
            DType::F32 => "<f",
            DType::F64 => "<d",
            DType::C64 => "<Zf",
            DType::C128 => "<Zd",
        }
    }

    /// The Python `ctypes` type name, or `None` when ctypes has no equivalent.
    pub fn ctypes_name(self) -> (r: Option<&'static str>)
        ensures
            (r is Some <==> spec_ctypes_name(self) is Some) && (r matches Some(n) ==> n@ == spec_ctypes_name(self)->0),
    {
        match self {
            DType::Bool => Some("c_bool"),
            DType::I8 => Some("c_int8"),
            DType::I16 => Some("c_int16"),
            DType::I32 => Some("c_int32"),
            DType::I64 => Some("c_int64"),
            DType::U8 => Some("c_uint8"),
            DType::U16 => Some("c_uint16"),
            DType::U32 => Some("c_uint32"),
            DType::U64 => Some("c_uint64"),
            DType::F16 => None,
            DType::BF16 => None,
            DType::F32 => Some("c_float"),
            DType::F64 => Some("c_double"),
            DType::C64 => None,
            DType::C128 => None,
        }
    }

    /// The C type name used in generated C/CUDA kernels.
    pub fn c_type_name(self) -> (r: &'static str)
        ensures
            r@ == spec_c_type_name(self),
    {
        match self {
            DType::Bool => "_Bool",
            DType::I8 => "int8_t",
            DType::I16 => "int16_t",
            DType::I32 => "int32_t",
            DType::I64 => "int64_t",
            DType::U8 => "uint8_t",
            DType::U16 => "uint16_t",
            DType::U32 => "uint32_t",
            DType::U64 => "uint64_t",
            DType::F16 => "__fp16",
            DType::BF16 => "__bfloat16",
            DType::F32 => "float",
            DType::F64 => "double",
            DType::C64 => "float _Complex",
            DType::C128 => "double _Complex",
        }
    }

    /// The canonical Rust type name.
    pub fn rust_type_name(self) -> (r: &'static str)
        ensures
            r@ == spec_rust_type_name(self),
    {
        match self {
            DType::Bool => "bool",
            DType::I8 => "i8",
            DType::I16 => "i16",
            DType::I32 => "i32",
            DType::I64 => "i64",
            DType::U8 => "u8",
            DType::U16 => "u16",
            DType::U32 => "u32",
            DType::U64 => "u64",
            DType::F16 => "half::f16",
            DType::BF16 => "half::bf16",
            DType::F32 => "f32",
            DType::F64 => "f64",
            DType::C64 => "num_complex::Complex<f32>",
            DType::C128 => "num_complex::Complex<f64>",
        }
    }

    /// The Python `struct` format string with the native-endian prefix `=`.
    ///
    /// Fails with `UnsupportedDType { op: "struct format", .. }` for dtypes
    /// without a struct code.
    pub fn to_struct_format(self) -> (r: MohuResult<String>)
        ensures
            spec_struct_format_char(self) matches Some(c) ==> (r matches Ok(s) && s@ == seq!['=', c]),
            spec_struct_format_char(self) is None ==> (r matches Err(MohuError::UnsupportedDType { op, dtype })
                && op@ == "struct format"@ && dtype@ == spec_numpy_str(self)),
    {
        match self {
            DType::Bool => {
                proof {
                    reveal_strlit("=?");
                }
                Ok(string_of("=?"))
            },
            DType::I8 => {
                proof {
                    reveal_strlit("=b");
                }
                Ok(string_of("=b"))
            },
            DType::I16 => {
                proof {
                    reveal_strlit("=h");
                }
                Ok(string_of("=h"))
            },
            DType::I32 => {
                proof {
                    reveal_strlit("=i");
                }
                Ok(string_of("=i"))
            },
            DType::I64 => {
                proof {
                    reveal_strlit("=q");
                }
                Ok(string_of("=q"))
            },
            DType::U8 => {
                proof {
                    reveal_strlit("=B");
                }
                Ok(string_of("=B"))
            },
            DType::U16 => {
                proof {
                    reveal_strlit("=H");
                }
                Ok(string_of("=H"))
            },
            DType::U32 => {
                proof {
                    reveal_strlit("=I");
                }
                Ok(string_of("=I"))
            },
            DType::U64 => {
                proof {
                    reveal_strlit("=Q");
                }
                Ok(string_of("=Q"))
            },
            DType::F16 => {
                proof {
                    reveal_strlit("=e");
                }
                Ok(string_of("=e"))
            },
            DType::BF16 => Err(MohuError::UnsupportedDType { op: "struct format", dtype: self.to_string() }),
            DType::F32 => {
                proof {
                    reveal_strlit("=f");
                }
                Ok(string_of("=f"))
            },
            DType::F64 => {
                proof {
                    reveal_strlit("=d");
                }
                Ok(string_of("=d"))
            },
            DType::C64 => Err(MohuError::UnsupportedDType { op: "struct format", dtype: self.to_string() }),
            DType::C128 => Err(MohuError::UnsupportedDType { op: "struct format", dtype: self.to_string() }),
        }
    }

    /// Parses a dtype from a PEP 3118 buffer format string, after stripping
    /// leading endian characters (`<`, `>`, `=`, `@`, `!`, `|`, space).
    ///
    /// Fails with `PythonUnsupportedBufferFormat` holding the stripped code.
    pub fn from_buffer_format(fmt: &str) -> (r: MohuResult<DType>)
        ensures
            format_code_dtype(strip_endian(fmt@)) matches Some(d) ==> r == Ok::<DType, MohuError>(d),
            format_code_dtype(strip_endian(fmt@)) is None ==> (r matches Err(
                MohuError::PythonUnsupportedBufferFormat { format },
            ) && format@ == strip_endian(fmt@)),
    {
        let n = fmt.unicode_len();
        let mut a: usize = 0;
        while a < n && char_is_endian(fmt.get_char(a))
            invariant
                a <= n,
                n == fmt@.len(),
                forall|i: int| 0 <= i < a ==> is_endian_char(#[trigger] fmt@[i]),
            decreases n - a,
        {
            a = a + 1;
        }
        proof {
            lemma_leading_endian(fmt@, a as int);
        }
        let stripped = fmt.substring_char(a, n);
        let len = n - a;
        if len == 1 {
            let c = stripped.get_char(0);
            let found = if c == '?' {
                Some(DType::Bool)
            } else if c == 'b' {
                Some(DType::I8)
            } else if c == 'B' {
                Some(DType::U8)
            } else if c == 'h' {
                Some(DType::I16)
            } else if c == 'H' {
                Some(DType::U16)
            } else if c == 'i' || c == 'l' {
                Some(DType::I32)
            } else if c == 'I' || c == 'L' {
                Some(DType::U32)
            } else if c == 'q' || c == 'n' {
                Some(DType::I64)
            } else if c == 'Q' || c == 'N' {
                Some(DType::U64)
            } else if c == 'e' {
                Some(DType::F16)
            } else if c == 'f' {
                Some(DType::F32)
            } else if c == 'd' {
                Some(DType::F64)
            } else {
                None
            };
            if let Some(d) = found {
                return Ok(d);
            }
        } else if len == 2 && stripped.get_char(0) == 'Z' {
            let c = stripped.get_char(1);
            if c == 'f' {
                return Ok(DType::C64);
            }
            if c == 'd' {
                return Ok(DType::C128);
            }
        }
        Err(MohuError::PythonUnsupportedBufferFormat { format: string_of(stripped) })
    }
}


/// Reading back the buffer format of a dtype gives the dtype, except for
/// BF16, which is sent as the F16 code `e`.
pub proof fn lemma_buffer_format_round_trip(d: DType)
    ensures
        format_code_dtype(strip_endian(spec_buffer_format(d))) == Some(if d is BF16 { DType::F16 } else { d }),
{
    reveal_strlit("<H");
    reveal_strlit("<I");
    reveal_strlit("<Q");
    reveal_strlit("<Zd");
    reveal_strlit("<Zf");
    reveal_strlit("<d");
    reveal_strlit("<e");
    reveal_strlit("<f");
    reveal_strlit("<h");
    reveal_strlit("<i");
    reveal_strlit("<q");
    reveal_strlit("?");
    reveal_strlit("B");
    reveal_strlit("H");
    reveal_strlit("I");
    reveal_strlit("L");
    reveal_strlit("N");
    reveal_strlit("Q");
    reveal_strlit("Zd");
    reveal_strlit("Zf");
    reveal_strlit("b");
    reveal_strlit("d");
    reveal_strlit("e");
    reveal_strlit("f");
    reveal_strlit("h");
    reveal_strlit("i");
    reveal_strlit("l");
    reveal_strlit("n");
    reveal_strlit("q");
    reveal_strlit("|?");
    reveal_strlit("|B");
    reveal_strlit("|b");
    let f = spec_buffer_format(d);
    assert(f.len() >= 2 && is_endian_char(f[0]) && !is_endian_char(f[1]));
    lemma_leading_endian(f, 1);
    assert(strip_endian(f) =~= f.subrange(1, f.len() as int));
}


// ─── Apache Arrow ────────────────────────────────────────────────────────────

/// Makes `arrow::datatypes::DataType` known to the verifier, as an opaque
/// type.
#[verifier::external_type_specification]
#[verifier::external_body]
pub struct ExArrowDataType(arrow::datatypes::DataType);

/// The primitive Apache Arrow data types that have an element type here.
#[derive(Debug, Clone, Copy, PartialEq, Eq, Hash, Structural)]
pub enum ArrowPrimitive {
    /// `Boolean`, for `bool`.
    Boolean,
    /// `Int8`.
    Int8,
    /// `Int16`.
    Int16,
    /// `Int32`.
    Int32,
    /// `Int64`.
    Int64,
    /// `UInt8`.
    UInt8,
    /// `UInt16`.
    UInt16,
    /// `UInt32`.
    UInt32,
    /// `UInt64`.
    UInt64,
    /// `Float16`, IEEE half precision.
    Float16,
    /// `Float32`.
    Float32,
    /// `Float64`.
    Float64,
}

/// The Arrow type of `d`; none for `BF16` and the complex types, which
/// Arrow has no standard type for.
pub open spec fn spec_arrow_primitive(d: DType) -> Option<ArrowPrimitive> {
    match d {
        DType::Bool => Some(ArrowPrimitive::Boolean),
        DType::I8 => Some(ArrowPrimitive::Int8),
        DType::I16 => Some(ArrowPrimitive::Int16),
        DType::I32 => Some(ArrowPrimitive::Int32),
        DType::I64 => Some(ArrowPrimitive::Int64),
        DType::U8 => Some(ArrowPrimitive::UInt8),
        DType::U16 => Some(ArrowPrimitive::UInt16),
        DType::U32 => Some(ArrowPrimitive::UInt32),
        DType::U64 => Some(ArrowPrimitive::UInt64),
        DType::F16 => Some(ArrowPrimitive::Float16),
        DType::F32 => Some(ArrowPrimitive::Float32),
        DType::F64 => Some(ArrowPrimitive::Float64),
        DType::BF16 | DType::C64 | DType::C128 => None,
    }
}

/// The element type of the Arrow type `p`.
pub open spec fn spec_from_arrow_primitive(p: ArrowPrimitive) -> DType {
    match p {
        ArrowPrimitive::Boolean => DType::Bool,
        ArrowPrimitive::Int8 => DType::I8,
        ArrowPrimitive::Int16 => DType::I16,
        ArrowPrimitive::Int32 => DType::I32,
        ArrowPrimitive::Int64 => DType::I64,
        ArrowPrimitive::UInt8 => DType::U8,
        ArrowPrimitive::UInt16 => DType::U16,
        ArrowPrimitive::UInt32 => DType::U32,
        ArrowPrimitive::UInt64 => DType::U64,
        ArrowPrimitive::Float16 => DType::F16,
        ArrowPrimitive::Float32 => DType::F32,
        ArrowPrimitive::Float64 => DType::F64,
    }
}

/// The `arrow::datatypes::DataType` variant that [`arrow_type_of`] builds
/// for `p`: a unit variant, the same value for the same `p`.
pub uninterp spec fn arrow_type_named(p: ArrowPrimitive) -> ArrowDataType;

/// `r` classifies `dt`: the primitive type whose variant `dt` is, or an
/// error for a type that is none of them.
pub open spec fn arrow_classified(dt: ArrowDataType, r: Result<ArrowPrimitive, String>) -> bool {
    &&& forall|p: ArrowPrimitive| dt == arrow_type_named(p) ==> (r matches Ok(q) && q == p)
    &&& (forall|p: ArrowPrimitive| dt != arrow_type_named(p)) ==> r is Err
}

/// Tells the variants of an `arrow::datatypes::DataType` apart, one match
/// arm per variant: the twelve unit variants that [`arrow_type_named`]
/// names give their primitive type back, and any other type gives its
/// `Debug` text. Stated: which primitive type comes back, and that every
/// other type gives an error. Not stated: the `Debug` text, which the
/// `arrow` crate's derived formatting produces.
#[verifier::external_body]
fn classify_arrow_type(dt: &ArrowDataType) -> (r: Result<ArrowPrimitive, String>)
    ensures
        arrow_classified(*dt, r),
{
    match dt {
        ArrowDataType::Boolean => Ok(ArrowPrimitive::Boolean),
        ArrowDataType::Int8 => Ok(ArrowPrimitive::Int8),
        ArrowDataType::Int16 => Ok(ArrowPrimitive::Int16),
        ArrowDataType::Int32 => Ok(ArrowPrimitive::Int32),
        ArrowDataType::Int64 => Ok(ArrowPrimitive::Int64),
        ArrowDataType::UInt8 => Ok(ArrowPrimitive::UInt8),
        ArrowDataType::UInt16 => Ok(ArrowPrimitive::UInt16),
        ArrowDataType::UInt32 => Ok(ArrowPrimitive::UInt32),
        ArrowDataType::UInt64 => Ok(ArrowPrimitive::UInt64),
        ArrowDataType::Float16 => Ok(ArrowPrimitive::Float16),
        ArrowDataType::Float32 => Ok(ArrowPrimitive::Float32),
        ArrowDataType::Float64 => Ok(ArrowPrimitive::Float64),
        other => Err(format!("{other:?}")),
    }
}

/// Builds the `arrow::datatypes::DataType` unit variant named by `p`, one
/// arm per variant; the contract names it [`arrow_type_named`].
#[verifier::external_body]
fn arrow_type_of(p: ArrowPrimitive) -> (r: ArrowDataType)
    ensures
        r == arrow_type_named(p),
{
    match p {
        ArrowPrimitive::Boolean => ArrowDataType::Boolean,
        ArrowPrimitive::Int8 => ArrowDataType::Int8,
        ArrowPrimitive::Int16 => ArrowDataType::Int16,
        ArrowPrimitive::Int32 => ArrowDataType::Int32,
        ArrowPrimitive::Int64 => ArrowDataType::Int64,
        ArrowPrimitive::UInt8 => ArrowDataType::UInt8,
        ArrowPrimitive::UInt16 => ArrowDataType::UInt16,
        ArrowPrimitive::UInt32 => ArrowDataType::UInt32,
        ArrowPrimitive::UInt64 => ArrowDataType::UInt64,
        ArrowPrimitive::Float16 => ArrowDataType::Float16,
        ArrowPrimitive::Float32 => ArrowDataType::Float32,
        ArrowPrimitive::Float64 => ArrowDataType::Float64,
    }
}

impl DType {
    /// The primitive Arrow type of this element type, if Arrow has one.
    pub fn arrow_primitive(self) -> (r: Option<ArrowPrimitive>)
        ensures
            r == spec_arrow_primitive(self),
    {
        match self {
            DType::Bool => Some(ArrowPrimitive::Boolean),
            DType::I8 => Some(ArrowPrimitive::Int8),
            DType::I16 => Some(ArrowPrimitive::Int16),
            DType::I32 => Some(ArrowPrimitive::Int32),
            DType::I64 => Some(ArrowPrimitive::Int64),
            DType::U8 => Some(ArrowPrimitive::UInt8),
            DType::U16 => Some(ArrowPrimitive::UInt16),
            DType::U32 => Some(ArrowPrimitive::UInt32),
            DType::U64 => Some(ArrowPrimitive::UInt64),
            DType::F16 => Some(ArrowPrimitive::Float16),
            DType::F32 => Some(ArrowPrimitive::Float32),
            DType::F64 => Some(ArrowPrimitive::Float64),
            DType::BF16 | DType::C64 | DType::C128 => None,
        }
    }

    /// The element type of a classified Arrow type: that of a primitive
    /// type, else `ArrowUnsupportedType` carrying the text of the type.
    pub fn from_arrow_class(class: Result<ArrowPrimitive, String>) -> (r: MohuResult<DType>)
        ensures
            class matches Ok(p) ==> r == Ok::<DType, MohuError>(spec_from_arrow_primitive(p)),
            class matches Err(t) ==> (r matches Err(MohuError::ArrowUnsupportedType { arrow_type }) && arrow_type@
                == t@),
    {
        match class {
            Ok(p) => Ok(
                match p {
                    ArrowPrimitive::Boolean => DType::Bool,
                    ArrowPrimitive::Int8 => DType::I8,
                    ArrowPrimitive::Int16 => DType::I16,
                    ArrowPrimitive::Int32 => DType::I32,
                    ArrowPrimitive::Int64 => DType::I64,
                    ArrowPrimitive::UInt8 => DType::U8,
                    ArrowPrimitive::UInt16 => DType::U16,
                    ArrowPrimitive::UInt32 => DType::U32,
                    ArrowPrimitive::UInt64 => DType::U64,
                    ArrowPrimitive::Float16 => DType::F16,
                    ArrowPrimitive::Float32 => DType::F32,
                    ArrowPrimitive::Float64 => DType::F64,
                },
            ),
            Err(t) => Err(MohuError::ArrowUnsupportedType { arrow_type: t }),
        }
    }

    /// This element type as an Apache Arrow `DataType`; none for `BF16` and
    /// the complex types.
    pub fn to_arrow(self) -> (r: Option<ArrowDataType>)
        ensures
            r is Some <==> spec_arrow_primitive(self) is Some,
            r matches Some(t) ==> t == arrow_type_named(spec_arrow_primitive(self)->Some_0),
    {
        match self.arrow_primitive() {
            Some(p) => Some(arrow_type_of(p)),
            None => None,
        }
    }

    /// The element type of an Apache Arrow `DataType`: one of the twelve
    /// primitive types Arrow shares with this library, or
    /// `ArrowUnsupportedType` for any other.
    pub fn from_arrow(dt: &ArrowDataType) -> (r: MohuResult<DType>)
        ensures
            r matches Ok(d) ==> spec_arrow_primitive(d) is Some,
            r is Err ==> r matches Err(MohuError::ArrowUnsupportedType { .. }),
            forall|p: ArrowPrimitive|
                *dt == arrow_type_named(p) ==> r == Ok::<DType, MohuError>(spec_from_arrow_primitive(p)),
            (forall|p: ArrowPrimitive| *dt != arrow_type_named(p)) ==> r is Err,
    {
        let class = classify_arrow_type(dt);
        let r = DType::from_arrow_class(class);
        proof {
            if let Ok(d) = r {
                let p = class->Ok_0;
                assert(d == spec_from_arrow_primitive(p));
            }
        }
        r
    }
}

/// An element type that Arrow has a type for comes back from that type, and
/// an Arrow primitive type comes back from its element type.
pub proof fn lemma_arrow_round_trip(d: DType, p: ArrowPrimitive)
    ensures
        spec_arrow_primitive(d) matches Some(q) ==> spec_from_arrow_primitive(q) == d,
        spec_arrow_primitive(spec_from_arrow_primitive(p)) == Some(p),
{
}

} // verus!

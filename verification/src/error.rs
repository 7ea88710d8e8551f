//! Error codes, error kinds and the error type shared by the whole library.
use vstd::prelude::*;
use vstd::std_specs::convert::FromSpecImpl;

verus! {

/// Makes `std::io::Error` known to the verifier, as an opaque type.
#[verifier::external_type_specification]
#[verifier::external_body]
pub struct ExIoError(std::io::Error);

/// Stable numeric error codes for every [`MohuError`] variant.
///
/// Codes are grouped by domain: 1000–1999 shape, 2000–2999 dtype,
/// 3000–3999 index, 4000–4999 buffer, 5000–5999 compute, 6000–6999 I/O,
/// 7000–7999 DLPack, 8000–8999 Arrow, 9000–9999 Python, 10000+ general.
#[derive(Debug, Clone, Copy, PartialEq, Eq, Hash, Structural)]
#[non_exhaustive]
pub enum ErrorCode {
    ShapeMismatch,
    BroadcastError,
    DimensionMismatch,
    AxisOutOfRange,
    ScalarArray,
    ZeroSizedDimension,
    ShapeOverflow,
    ReshapeIncompatible,
    EmptyStackSequence,
    ConcatShapeMismatch,
    DTypeMismatch,
    InvalidCast,
    Overflow,
    Underflow,
    UnknownDType,
    UnsupportedDType,
    AmbiguousPromotion,
    IndexOutOfBounds,
    TooManyIndices,
    ZeroSliceStep,
    SliceOutOfBounds,
    BoolIndexShapeMismatch,
    FancyIndexOutOfBounds,
    AllocationFailed,
    AlignmentError,
    BufferTooSmall,
    InvalidStride,
    OverlappingStrides,
    NonContiguous,
    ReadOnly,
    CannotResizeShared,
    OffsetOverflow,
    SingularMatrix,
    NonConvergence,
    DomainError,
    DivisionByZero,
    MatrixDimensionMismatch,
    EigenDecompositionFailed,
    NotPositiveDefinite,
    QRRankDeficient,
    SVDNonConvergence,
    UnsupportedNormOrder,
    Io,
    InvalidMagic,
    UnsupportedVersion,
    CorruptData,
    UnexpectedEof,
    UnsupportedCodec,
    NpyHeaderError,
    NpzEntryNotFound,
    CsvParseError,
    DLPackUnsupportedDevice,
    DLPackVersionMismatch,
    DLPackNullPointer,
    DLPackUnsupportedDType,
    DLPackInvalid,
    ArrowSchema,
    ArrowIpc,
    ArrowUnsupportedType,
    ArrowValidityError,
    PythonType,
    PythonValue,
    PythonBuffer,
    PythonNoBuffer,
    PythonUnsupportedBufferFormat,
    Context,
    NotImplemented,
    Internal,
}

/// The stable number of an error code.
pub open spec fn code_number(c: ErrorCode) -> u32 {
    match c {
        ErrorCode::ShapeMismatch => 1000,
        ErrorCode::BroadcastError => 1001,
        ErrorCode::DimensionMismatch => 1002,
        ErrorCode::AxisOutOfRange => 1003,
        ErrorCode::ScalarArray => 1004,
        ErrorCode::ZeroSizedDimension => 1005,
        ErrorCode::ShapeOverflow => 1006,
        ErrorCode::ReshapeIncompatible => 1007,
        ErrorCode::EmptyStackSequence => 1008,
        ErrorCode::ConcatShapeMismatch => 1009,
        ErrorCode::DTypeMismatch => 2000,
        ErrorCode::InvalidCast => 2001,
        ErrorCode::Overflow => 2002,
        ErrorCode::Underflow => 2003,
        ErrorCode::UnknownDType => 2004,
        ErrorCode::UnsupportedDType => 2005,
        ErrorCode::AmbiguousPromotion => 2006,
        ErrorCode::IndexOutOfBounds => 3000,
        ErrorCode::TooManyIndices => 3001,
        ErrorCode::ZeroSliceStep => 3002,
        ErrorCode::SliceOutOfBounds => 3003,
        ErrorCode::BoolIndexShapeMismatch => 3004,
        ErrorCode::FancyIndexOutOfBounds => 3005,
        ErrorCode::AllocationFailed => 4000,
        ErrorCode::AlignmentError => 4001,
        ErrorCode::BufferTooSmall => 4002,
        ErrorCode::InvalidStride => 4003,
        ErrorCode::OverlappingStrides => 4004,
        ErrorCode::NonContiguous => 4005,
        ErrorCode::ReadOnly => 4006,
        ErrorCode::CannotResizeShared => 4007,
        ErrorCode::OffsetOverflow => 4008,
        ErrorCode::SingularMatrix => 5000,
        ErrorCode::NonConvergence => 5001,
        ErrorCode::DomainError => 5002,
        ErrorCode::DivisionByZero => 5003,
        ErrorCode::MatrixDimensionMismatch => 5004,
        ErrorCode::EigenDecompositionFailed => 5005,
        ErrorCode::NotPositiveDefinite => 5006,
        ErrorCode::QRRankDeficient => 5007,
        ErrorCode::SVDNonConvergence => 5008,
        ErrorCode::UnsupportedNormOrder => 5009,
        ErrorCode::Io => 6000,
        ErrorCode::InvalidMagic => 6001,
        ErrorCode::UnsupportedVersion => 6002,
        ErrorCode::CorruptData => 6003,
        ErrorCode::UnexpectedEof => 6004,
        ErrorCode::UnsupportedCodec => 6005,
        ErrorCode::NpyHeaderError => 6006,
        ErrorCode::NpzEntryNotFound => 6007,
        ErrorCode::CsvParseError => 6008,
        ErrorCode::DLPackUnsupportedDevice => 7000,
        ErrorCode::DLPackVersionMismatch => 7001,
        ErrorCode::DLPackNullPointer => 7002,
        ErrorCode::DLPackUnsupportedDType => 7003,
        ErrorCode::DLPackInvalid => 7004,
        ErrorCode::ArrowSchema => 8000,
        ErrorCode::ArrowIpc => 8001,
        ErrorCode::ArrowUnsupportedType => 8002,
        ErrorCode::ArrowValidityError => 8003,
        ErrorCode::PythonType => 9000,
        ErrorCode::PythonValue => 9001,
        ErrorCode::PythonBuffer => 9002,
        ErrorCode::PythonNoBuffer => 9003,
        ErrorCode::PythonUnsupportedBufferFormat => 9004,
        ErrorCode::Context => 10000,
        ErrorCode::NotImplemented => 10001,
        ErrorCode::Internal => 10002,
    }
}

/// The domain name of a numeric error code.
pub open spec fn domain_of(n: u32) -> Seq<char> {
    if 1000 <= n <= 1999 {
        "shape"@
    } else if 2000 <= n <= 2999 {
        "dtype"@
    } else if 3000 <= n <= 3999 {
        "index"@
    } else if 4000 <= n <= 4999 {
        "buffer"@
    } else if 5000 <= n <= 5999 {
        "compute"@
    } else if 6000 <= n <= 6999 {
        "io"@
    } else if 7000 <= n <= 7999 {
        "dlpack"@
    } else if 8000 <= n <= 8999 {
        "arrow"@
    } else if 9000 <= n <= 9999 {
        "python"@
    } else {
        "general"@
    }
}

impl ErrorCode {
    /// The stable numeric value of this code.
    pub fn as_u32(self) -> (r: u32)
        ensures
            r == code_number(self),
    {
        match self {
            ErrorCode::ShapeMismatch => 1000,
            ErrorCode::BroadcastError => 1001,
            ErrorCode::DimensionMismatch => 1002,
            ErrorCode::AxisOutOfRange => 1003,
            ErrorCode::ScalarArray => 1004,
            ErrorCode::ZeroSizedDimension => 1005,
            ErrorCode::ShapeOverflow => 1006,
            ErrorCode::ReshapeIncompatible => 1007,
            ErrorCode::EmptyStackSequence => 1008,
            ErrorCode::ConcatShapeMismatch => 1009,
            ErrorCode::DTypeMismatch => 2000,
            ErrorCode::InvalidCast => 2001,
            ErrorCode::Overflow => 2002,
            ErrorCode::Underflow => 2003,
            ErrorCode::UnknownDType => 2004,
            ErrorCode::UnsupportedDType => 2005,
            ErrorCode::AmbiguousPromotion => 2006,
            ErrorCode::IndexOutOfBounds => 3000,
            ErrorCode::TooManyIndices => 3001,
            ErrorCode::ZeroSliceStep => 3002,
            ErrorCode::SliceOutOfBounds => 3003,
            ErrorCode::BoolIndexShapeMismatch => 3004,
            ErrorCode::FancyIndexOutOfBounds => 3005,
            ErrorCode::AllocationFailed => 4000,
            ErrorCode::AlignmentError => 4001,
            ErrorCode::BufferTooSmall => 4002,
            ErrorCode::InvalidStride => 4003,
            ErrorCode::OverlappingStrides => 4004,
            ErrorCode::NonContiguous => 4005,
            ErrorCode::ReadOnly => 4006,
            ErrorCode::CannotResizeShared => 4007,
            ErrorCode::OffsetOverflow => 4008,
            ErrorCode::SingularMatrix => 5000,
            ErrorCode::NonConvergence => 5001,
            ErrorCode::DomainError => 5002,
            ErrorCode::DivisionByZero => 5003,
            ErrorCode::MatrixDimensionMismatch => 5004,
            ErrorCode::EigenDecompositionFailed => 5005,
            ErrorCode::NotPositiveDefinite => 5006,
            ErrorCode::QRRankDeficient => 5007,
            ErrorCode::SVDNonConvergence => 5008,
            ErrorCode::UnsupportedNormOrder => 5009,
            ErrorCode::Io => 6000,
            ErrorCode::InvalidMagic => 6001,
            ErrorCode::UnsupportedVersion => 6002,
            ErrorCode::CorruptData => 6003,
            ErrorCode::UnexpectedEof => 6004,
            ErrorCode::UnsupportedCodec => 6005,
            ErrorCode::NpyHeaderError => 6006,
            ErrorCode::NpzEntryNotFound => 6007,
            ErrorCode::CsvParseError => 6008,
            ErrorCode::DLPackUnsupportedDevice => 7000,
            ErrorCode::DLPackVersionMismatch => 7001,
            ErrorCode::DLPackNullPointer => 7002,
            ErrorCode::DLPackUnsupportedDType => 7003,
            ErrorCode::DLPackInvalid => 7004,
            ErrorCode::ArrowSchema => 8000,
            ErrorCode::ArrowIpc => 8001,
            ErrorCode::ArrowUnsupportedType => 8002,
            ErrorCode::ArrowValidityError => 8003,
            ErrorCode::PythonType => 9000,
            ErrorCode::PythonValue => 9001,
            ErrorCode::PythonBuffer => 9002,
            ErrorCode::PythonNoBuffer => 9003,
            ErrorCode::PythonUnsupportedBufferFormat => 9004,
            ErrorCode::Context => 10000,
            ErrorCode::NotImplemented => 10001,
            ErrorCode::Internal => 10002,
        }
    }

    /// Returns the domain name for this error code.
    pub fn domain(self) -> (r: &'static str)
        ensures
            r@ == domain_of(code_number(self)),
    {
        let n = self.as_u32();
        if 1000 <= n && n <= 1999 {
            "shape"
        } else if 2000 <= n && n <= 2999 {
            "dtype"
        } else if 3000 <= n && n <= 3999 {
            "index"
        } else if 4000 <= n && n <= 4999 {
            "buffer"
        } else if 5000 <= n && n <= 5999 {
            "compute"
        } else if 6000 <= n && n <= 6999 {
            "io"
        } else if 7000 <= n && n <= 7999 {
            "dlpack"
        } else if 8000 <= n && n <= 8999 {
            "arrow"
        } else if 9000 <= n && n <= 9999 {
            "python"
        } else {
            "general"
        }
    }

    /// Returns `true` if this code falls in the shape domain (1000–1999).
    pub fn is_shape(self) -> (r: bool)
        ensures
            r == (1000 <= code_number(self) <= 1999),
    {
        let n = self.as_u32();
        1000 <= n && n <= 1999
    }

    /// Returns `true` if this code falls in the dtype domain (2000–2999).
    pub fn is_dtype(self) -> (r: bool)
        ensures
            r == (2000 <= code_number(self) <= 2999),
    {
        let n = self.as_u32();
        2000 <= n && n <= 2999
    }

    /// Returns `true` if this code falls in the index domain (3000–3999).
    pub fn is_index(self) -> (r: bool)
        ensures
            r == (3000 <= code_number(self) <= 3999),
    {
        let n = self.as_u32();
        3000 <= n && n <= 3999
    }

    /// Returns `true` if this code falls in the buffer domain (4000–4999).
    pub fn is_buffer(self) -> (r: bool)
        ensures
            r == (4000 <= code_number(self) <= 4999),
    {
        let n = self.as_u32();
        4000 <= n && n <= 4999
    }

    /// Returns `true` if this code falls in the compute domain (5000–5999).
    pub fn is_compute(self) -> (r: bool)
        ensures
            r == (5000 <= code_number(self) <= 5999),
    {
        let n = self.as_u32();
        5000 <= n && n <= 5999
    }

    /// Returns `true` if this code falls in the io domain (6000–6999).
    pub fn is_io(self) -> (r: bool)
        ensures
            r == (6000 <= code_number(self) <= 6999),
    {
        let n = self.as_u32();
        6000 <= n && n <= 6999
    }

    /// Returns `true` if this code falls in the dlpack domain (7000–7999).
    pub fn is_dlpack(self) -> (r: bool)
        ensures
            r == (7000 <= code_number(self) <= 7999),
    {
        let n = self.as_u32();
        7000 <= n && n <= 7999
    }

    /// Returns `true` if this code falls in the arrow domain (8000–8999).
    pub fn is_arrow(self) -> (r: bool)
        ensures
            r == (8000 <= code_number(self) <= 8999),
    {
        let n = self.as_u32();
        8000 <= n && n <= 8999
    }

    /// Returns `true` if this code falls in the python domain (9000–9999).
    pub fn is_python(self) -> (r: bool)
        ensures
            r == (9000 <= code_number(self) <= 9999),
    {
        let n = self.as_u32();
        9000 <= n && n <= 9999
    }

}

/// A coarse four-way classification of every error.
#[derive(Debug, Clone, Copy, PartialEq, Eq, PartialOrd, Ord, Hash, Structural)]
pub enum ErrorKind {
    /// The caller passed invalid arguments.
    Usage,
    /// A well-formed operation failed because of the data.
    Runtime,
    /// A system-level failure outside the library's control: I/O, memory
    /// allocation, a DLPack version mismatch, Arrow IPC failure.
    System,
    /// An internal invariant was violated.
    Internal,
}

/// The kind that a numeric error code falls under.
pub open spec fn kind_of_code(n: u32) -> ErrorKind {
    if 1000 <= n <= 3999 {
        ErrorKind::Usage
    } else if 4000 <= n <= 4002 {
        ErrorKind::System
    } else if 4003 <= n <= 4999 {
        ErrorKind::Usage
    } else if 5000 <= n <= 5999 {
        ErrorKind::Runtime
    } else if 6000 <= n <= 6999 {
        ErrorKind::System
    } else if n == 7001 {
        ErrorKind::System
    } else if n == 7002 {
        ErrorKind::Internal
    } else if 7000 <= n <= 7999 {
        ErrorKind::Usage
    } else if 8000 <= n <= 8999 {
        ErrorKind::System
    } else if 9000 <= n <= 9999 {
        ErrorKind::Usage
    } else if n == 10000 || n == 10001 {
        ErrorKind::Runtime
    } else {
        ErrorKind::Internal
    }
}

impl ErrorKind {
    /// Returns `true` if retrying might succeed (only `System` errors).
    pub fn is_recoverable(self) -> (r: bool)
        ensures
            r == (self == ErrorKind::System),
    {
        match self {
            ErrorKind::System => true,
            _ => false,
        }
    }

    /// Human-readable one-word label for this kind.
    pub fn label(self) -> (r: &'static str)
        ensures
            r@ == (match self {
                ErrorKind::Usage => "usage"@,
                ErrorKind::Runtime => "runtime"@,
                ErrorKind::System => "system"@,
                ErrorKind::Internal => "internal"@,
            }),
    {
        match self {
            ErrorKind::Usage => "usage",
            ErrorKind::Runtime => "runtime",
            ErrorKind::System => "system",
            ErrorKind::Internal => "internal",
        }
    }
}

/// Maps an error code to its broad kind, by the code's numeric range.
impl From<ErrorCode> for ErrorKind {
    fn from(code: ErrorCode) -> (r: ErrorKind) {
        let n = code.as_u32();
        if 1000 <= n && n <= 3999 {
            ErrorKind::Usage
        } else if 4000 <= n && n <= 4002 {
            ErrorKind::System
        } else if 4003 <= n && n <= 4999 {
            ErrorKind::Usage
        } else if 5000 <= n && n <= 5999 {
            ErrorKind::Runtime
        } else if 6000 <= n && n <= 6999 {
            ErrorKind::System
        } else if n == 7001 {
            ErrorKind::System
        } else if n == 7002 {
            ErrorKind::Internal
        } else if 7000 <= n && n <= 7999 {
            ErrorKind::Usage
        } else if 8000 <= n && n <= 8999 {
            ErrorKind::System
        } else if 9000 <= n && n <= 9999 {
            ErrorKind::Usage
        } else if n == 10000 || n == 10001 {
            ErrorKind::Runtime
        } else {
            ErrorKind::Internal
        }
    }
}

impl FromSpecImpl<ErrorCode> for ErrorKind {
    open spec fn obeys_from_spec() -> bool {
        true
    }

    open spec fn from_spec(code: ErrorCode) -> ErrorKind {
        kind_of_code(code_number(code))
    }
}

/// The severity of an error, for logging integrations.
#[derive(Debug, Clone, Copy, PartialEq, Eq, PartialOrd, Ord, Hash, Structural)]
pub enum Severity {
    /// Non-fatal.
    Warning,
    /// The operation failed and the error should be propagated.
    Error,
    /// A critical invariant was violated.
    Fatal,
}

impl Severity {
    /// Returns a lowercase label for this severity level.
    pub fn label(self) -> (r: &'static str)
        ensures
            r@ == (match self {
                Severity::Warning => "warning"@,
                Severity::Error => "error"@,
                Severity::Fatal => "fatal"@,
            }),
    {
        match self {
            Severity::Warning => "warning",
            Severity::Error => "error",
            Severity::Fatal => "fatal",
        }
    }
}

/// The display mode of an error report.
#[derive(Debug, Clone, Copy, PartialEq, Eq, Structural)]
pub enum ReportMode {
    /// Single line with the error code.
    Compact,
    /// Multi-line with cause chain and separated hints.
    Full,
    /// Machine-readable JSON object.
    Json,
}

/// The central error type of the library.
#[derive(Debug)]
#[non_exhaustive]
#[allow(inconsistent_fields)]
pub enum MohuError {
    ShapeMismatch { expected: Vec<usize>, got: Vec<usize>, },
    BroadcastError { lhs: Vec<usize>, rhs: Vec<usize> },
    DimensionMismatch { expected: usize, got: usize },
    AxisOutOfRange { axis: i64, ndim: usize, valid: String, },
    ScalarArray,
    ZeroSizedDimension { axis: usize },
    ShapeOverflow { max: usize },
    ReshapeIncompatible { src_len: usize, dst_shape: Vec<usize>, dst_len: usize, },
    EmptyStackSequence,
    ConcatShapeMismatch { index: usize, expected: Vec<usize>, got: Vec<usize>, },
    DTypeMismatch { expected: String, got: String },
    InvalidCast { from: String, to: String, reason: String, },
    Overflow { dtype: String, detail: String },
    Underflow { dtype: String, detail: String },
    UnknownDType(String),
    UnsupportedDType { op: &'static str, dtype: String },
    AmbiguousPromotion { lhs: String, rhs: String },
    IndexOutOfBounds { index: i64, axis: usize, size: usize, },
    TooManyIndices { given: usize, ndim: usize },
    ZeroSliceStep,
    SliceOutOfBounds { start: i64, stop: i64, step: i64, size: usize, },
    BoolIndexShapeMismatch { index_shape: Vec<usize>, array_shape: Vec<usize>, },
    FancyIndexOutOfBounds { index: i64, axis: usize, size: usize, },
    AllocationFailed { bytes: usize, human: String },
    AlignmentError { required: usize, got: usize },
    BufferTooSmall { required: usize, got: usize },
    InvalidStride { axis: usize, stride: isize, element_size: usize, },
    OverlappingStrides { shape: Vec<usize>, strides: Vec<isize>, element_size: usize, },
    NonContiguous,
    ReadOnly,
    CannotResizeShared,
    OffsetOverflow { shape: Vec<usize>, strides: Vec<isize>, index: Vec<usize>, },
    SingularMatrix,
    DomainError { op: &'static str, reason: String },
    DivisionByZero,
    MatrixDimensionMismatch { op: &'static str, lhs_rows: usize, lhs_cols: usize, rhs_rows: usize, rhs_cols: usize, },
    EigenDecompositionFailed { kind: &'static str },
    NotPositiveDefinite,
    QRRankDeficient { expected: usize, actual: usize },
    SVDNonConvergence { iterations: usize },
    UnsupportedNormOrder { order: String, ndim: usize },
    Io(std::io::Error),
    InvalidMagic { format: &'static str, expected: Vec<u8>, got: Vec<u8>, },
    UnsupportedVersion { format: &'static str, major: u8, minor: u8, max_major: u8, max_minor: u8, },
    CorruptData { format: &'static str, detail: String, },
    UnexpectedEof { format: &'static str, offset: u64 },
    UnsupportedCodec { format: &'static str, codec: String, supported: String, },
    NpyHeaderError { detail: String },
    NpzEntryNotFound { name: String },
    CsvParseError { row: usize, col: usize, detail: String, },
    DLPackUnsupportedDevice { device_type: i32 },
    DLPackVersionMismatch { supported_major: u32, got_major: u32, got_minor: u32, },
    DLPackNullPointer,
    DLPackUnsupportedDType { code: u8, bits: u8, lanes: u16 },
    DLPackInvalid(String),
    ArrowSchema(String),
    ArrowIpc(String),
    ArrowUnsupportedType { arrow_type: String },
    ArrowValidityError { length: usize, detail: String },
    PythonType { expected: &'static str, got: String },
    PythonValue(String),
    PythonBuffer(String),
    PythonNoBuffer,
    PythonUnsupportedBufferFormat { format: String },
    Context { context: String, source: Box<MohuError>, },
    NotImplemented(&'static str),
    Internal(String),
    Multiple(MultiError),
}

/// The result type used throughout the library.
pub type MohuResult<T> = Result<T, MohuError>;

/// The code of an error value.
pub open spec fn error_code(e: MohuError) -> ErrorCode {
    match e {
        MohuError::ShapeMismatch { .. } => ErrorCode::ShapeMismatch,
        MohuError::BroadcastError { .. } => ErrorCode::BroadcastError,
        MohuError::DimensionMismatch { .. } => ErrorCode::DimensionMismatch,
        MohuError::AxisOutOfRange { .. } => ErrorCode::AxisOutOfRange,
        MohuError::ScalarArray => ErrorCode::ScalarArray,
        MohuError::ZeroSizedDimension { .. } => ErrorCode::ZeroSizedDimension,
        MohuError::ShapeOverflow { .. } => ErrorCode::ShapeOverflow,
        MohuError::ReshapeIncompatible { .. } => ErrorCode::ReshapeIncompatible,
        MohuError::EmptyStackSequence => ErrorCode::EmptyStackSequence,
        MohuError::ConcatShapeMismatch { .. } => ErrorCode::ConcatShapeMismatch,
        MohuError::DTypeMismatch { .. } => ErrorCode::DTypeMismatch,
        MohuError::InvalidCast { .. } => ErrorCode::InvalidCast,
        MohuError::Overflow { .. } => ErrorCode::Overflow,
        MohuError::Underflow { .. } => ErrorCode::Underflow,
        MohuError::UnknownDType(..) => ErrorCode::UnknownDType,
        MohuError::UnsupportedDType { .. } => ErrorCode::UnsupportedDType,
        MohuError::AmbiguousPromotion { .. } => ErrorCode::AmbiguousPromotion,
        MohuError::IndexOutOfBounds { .. } => ErrorCode::IndexOutOfBounds,
        MohuError::TooManyIndices { .. } => ErrorCode::TooManyIndices,
        MohuError::ZeroSliceStep => ErrorCode::ZeroSliceStep,
        MohuError::SliceOutOfBounds { .. } => ErrorCode::SliceOutOfBounds,
        MohuError::BoolIndexShapeMismatch { .. } => ErrorCode::BoolIndexShapeMismatch,
        MohuError::FancyIndexOutOfBounds { .. } => ErrorCode::FancyIndexOutOfBounds,
        MohuError::AllocationFailed { .. } => ErrorCode::AllocationFailed,
        MohuError::AlignmentError { .. } => ErrorCode::AlignmentError,
        MohuError::BufferTooSmall { .. } => ErrorCode::BufferTooSmall,
        MohuError::InvalidStride { .. } => ErrorCode::InvalidStride,
        MohuError::OverlappingStrides { .. } => ErrorCode::OverlappingStrides,
        MohuError::NonContiguous => ErrorCode::NonContiguous,
        MohuError::ReadOnly => ErrorCode::ReadOnly,
        MohuError::CannotResizeShared => ErrorCode::CannotResizeShared,
        MohuError::OffsetOverflow { .. } => ErrorCode::OffsetOverflow,
        MohuError::SingularMatrix => ErrorCode::SingularMatrix,
        MohuError::DomainError { .. } => ErrorCode::DomainError,
        MohuError::DivisionByZero => ErrorCode::DivisionByZero,
        MohuError::MatrixDimensionMismatch { .. } => ErrorCode::MatrixDimensionMismatch,
        MohuError::EigenDecompositionFailed { .. } => ErrorCode::EigenDecompositionFailed,
        MohuError::NotPositiveDefinite => ErrorCode::NotPositiveDefinite,
        MohuError::QRRankDeficient { .. } => ErrorCode::QRRankDeficient,
        MohuError::SVDNonConvergence { .. } => ErrorCode::SVDNonConvergence,
        MohuError::UnsupportedNormOrder { .. } => ErrorCode::UnsupportedNormOrder,
        MohuError::Io(..) => ErrorCode::Io,
        MohuError::InvalidMagic { .. } => ErrorCode::InvalidMagic,
        MohuError::UnsupportedVersion { .. } => ErrorCode::UnsupportedVersion,
        MohuError::CorruptData { .. } => ErrorCode::CorruptData,
        MohuError::UnexpectedEof { .. } => ErrorCode::UnexpectedEof,
        MohuError::UnsupportedCodec { .. } => ErrorCode::UnsupportedCodec,
        MohuError::NpyHeaderError { .. } => ErrorCode::NpyHeaderError,
        MohuError::NpzEntryNotFound { .. } => ErrorCode::NpzEntryNotFound,
        MohuError::CsvParseError { .. } => ErrorCode::CsvParseError,
        MohuError::DLPackUnsupportedDevice { .. } => ErrorCode::DLPackUnsupportedDevice,
        MohuError::DLPackVersionMismatch { .. } => ErrorCode::DLPackVersionMismatch,
        MohuError::DLPackNullPointer => ErrorCode::DLPackNullPointer,
        MohuError::DLPackUnsupportedDType { .. } => ErrorCode::DLPackUnsupportedDType,
        MohuError::DLPackInvalid(..) => ErrorCode::DLPackInvalid,
        MohuError::ArrowSchema(..) => ErrorCode::ArrowSchema,
        MohuError::ArrowIpc(..) => ErrorCode::ArrowIpc,
        MohuError::ArrowUnsupportedType { .. } => ErrorCode::ArrowUnsupportedType,
        MohuError::ArrowValidityError { .. } => ErrorCode::ArrowValidityError,
        MohuError::PythonType { .. } => ErrorCode::PythonType,
        MohuError::PythonValue(..) => ErrorCode::PythonValue,
        MohuError::PythonBuffer(..) => ErrorCode::PythonBuffer,
        MohuError::PythonNoBuffer => ErrorCode::PythonNoBuffer,
        MohuError::PythonUnsupportedBufferFormat { .. } => ErrorCode::PythonUnsupportedBufferFormat,
        MohuError::Context { .. } => ErrorCode::Context,
        MohuError::NotImplemented(..) => ErrorCode::NotImplemented,
        MohuError::Internal(..) => ErrorCode::Internal,
        MohuError::Multiple(..) => ErrorCode::Internal,
    }
}

/// The innermost error under any number of `Context` wrappers.
pub open spec fn root_of(e: MohuError) -> MohuError
    decreases e,
{
    match e {
        MohuError::Context { source, .. } => root_of(*source),
        _ => e,
    }
}

/// The number of `Context` wrappers around the root error.
pub open spec fn depth_of(e: MohuError) -> nat
    decreases e,
{
    match e {
        MohuError::Context { source, .. } => 1 + depth_of(*source),
        _ => 0,
    }
}

/// The order of the kinds by gravity, `Usage` lowest and `Internal` highest.
pub open spec fn kind_rank(k: ErrorKind) -> nat {
    match k {
        ErrorKind::Usage => 0,
        ErrorKind::Runtime => 1,
        ErrorKind::System => 2,
        ErrorKind::Internal => 3,
    }
}

/// The kind of an error value, decided by its root cause; for a collection
/// of errors, the gravest kind among them (`Internal` when it is empty).
pub closed spec fn error_kind(e: MohuError) -> ErrorKind
    decreases e, 0nat,
{
    match e {
        MohuError::Context { source, .. } => error_kind(*source),
        MohuError::Internal(_) => ErrorKind::Internal,
        MohuError::Multiple(m) => gravest_kind(m.errors@, m.errors@.len()),
        _ => kind_of_code(code_number(error_code(e))),
    }
}

/// The gravest kind among the first `n` of `errs`, `Internal` when `n == 0`.
pub closed spec fn gravest_kind(errs: Seq<MohuError>, n: nat) -> ErrorKind
    decreases errs, n,
{
    if n == 0 || n > errs.len() {
        ErrorKind::Internal
    } else if n == 1 {
        error_kind(errs[0])
    } else {
        let k = error_kind(errs[n - 1]);
        let prev = gravest_kind(errs, (n - 1) as nat);
        if kind_rank(k) >= kind_rank(prev) {
            k
        } else {
            prev
        }
    }
}

/// What [`error_kind`] and [`gravest_kind`] are: the kind of the source
/// for a `Context`, `Internal` for an internal error, the gravest kind among
/// the errors of a collection, else the kind of the error's code.
pub proof fn lemma_error_kind(e: MohuError, errs: Seq<MohuError>, n: nat)
    ensures
        e matches MohuError::Context { source, .. } ==> error_kind(e) == error_kind(*source),
        e is Internal ==> error_kind(e) == ErrorKind::Internal,
        e matches MohuError::Multiple(m) ==> error_kind(e) == gravest_kind(m@, m@.len()),
        !(e is Context || e is Internal || e is Multiple) ==> error_kind(e) == kind_of_code(
            code_number(error_code(e)),
        ),
        n == 0 || n > errs.len() ==> gravest_kind(errs, n) == ErrorKind::Internal,
        n == 1 && errs.len() >= 1 ==> gravest_kind(errs, n) == error_kind(errs[0]),
        1 < n <= errs.len() ==> gravest_kind(errs, n) == (if kind_rank(error_kind(errs[n - 1])) >= kind_rank(
            gravest_kind(errs, (n - 1) as nat),
        ) {
            error_kind(errs[n - 1])
        } else {
            gravest_kind(errs, (n - 1) as nat)
        }),
{
}

/// Whether an error code marks a caller mistake.
pub open spec fn is_usage_code(c: ErrorCode) -> bool {
    c == ErrorCode::ShapeMismatch || c == ErrorCode::BroadcastError
        || c == ErrorCode::DimensionMismatch || c == ErrorCode::AxisOutOfRange
        || c == ErrorCode::DTypeMismatch || c == ErrorCode::InvalidCast
        || c == ErrorCode::IndexOutOfBounds || c == ErrorCode::TooManyIndices
        || c == ErrorCode::ZeroSliceStep || c == ErrorCode::SliceOutOfBounds
        || c == ErrorCode::ReshapeIncompatible || c == ErrorCode::BoolIndexShapeMismatch
        || c == ErrorCode::FancyIndexOutOfBounds
}

impl MohuError {
    /// Returns the numeric error code of this variant.
    pub fn code(&self) -> (r: ErrorCode)
        ensures
            r == error_code(*self),
    {
        match self {
            MohuError::ShapeMismatch { .. } => ErrorCode::ShapeMismatch,
            MohuError::BroadcastError { .. } => ErrorCode::BroadcastError,
            MohuError::DimensionMismatch { .. } => ErrorCode::DimensionMismatch,
            MohuError::AxisOutOfRange { .. } => ErrorCode::AxisOutOfRange,
            MohuError::ScalarArray => ErrorCode::ScalarArray,
            MohuError::ZeroSizedDimension { .. } => ErrorCode::ZeroSizedDimension,
            MohuError::ShapeOverflow { .. } => ErrorCode::ShapeOverflow,
            MohuError::ReshapeIncompatible { .. } => ErrorCode::ReshapeIncompatible,
            MohuError::EmptyStackSequence => ErrorCode::EmptyStackSequence,
            MohuError::ConcatShapeMismatch { .. } => ErrorCode::ConcatShapeMismatch,
            MohuError::DTypeMismatch { .. } => ErrorCode::DTypeMismatch,
            MohuError::InvalidCast { .. } => ErrorCode::InvalidCast,
            MohuError::Overflow { .. } => ErrorCode::Overflow,
            MohuError::Underflow { .. } => ErrorCode::Underflow,
            MohuError::UnknownDType(..) => ErrorCode::UnknownDType,
            MohuError::UnsupportedDType { .. } => ErrorCode::UnsupportedDType,
            MohuError::AmbiguousPromotion { .. } => ErrorCode::AmbiguousPromotion,
            MohuError::IndexOutOfBounds { .. } => ErrorCode::IndexOutOfBounds,
            MohuError::TooManyIndices { .. } => ErrorCode::TooManyIndices,
            MohuError::ZeroSliceStep => ErrorCode::ZeroSliceStep,
            MohuError::SliceOutOfBounds { .. } => ErrorCode::SliceOutOfBounds,
            MohuError::BoolIndexShapeMismatch { .. } => ErrorCode::BoolIndexShapeMismatch,
            MohuError::FancyIndexOutOfBounds { .. } => ErrorCode::FancyIndexOutOfBounds,
            MohuError::AllocationFailed { .. } => ErrorCode::AllocationFailed,
            MohuError::AlignmentError { .. } => ErrorCode::AlignmentError,
            MohuError::BufferTooSmall { .. } => ErrorCode::BufferTooSmall,
            MohuError::InvalidStride { .. } => ErrorCode::InvalidStride,
            MohuError::OverlappingStrides { .. } => ErrorCode::OverlappingStrides,
            MohuError::NonContiguous => ErrorCode::NonContiguous,
            MohuError::ReadOnly => ErrorCode::ReadOnly,
            MohuError::CannotResizeShared => ErrorCode::CannotResizeShared,
            MohuError::OffsetOverflow { .. } => ErrorCode::OffsetOverflow,
            MohuError::SingularMatrix => ErrorCode::SingularMatrix,
            MohuError::DomainError { .. } => ErrorCode::DomainError,
            MohuError::DivisionByZero => ErrorCode::DivisionByZero,
            MohuError::MatrixDimensionMismatch { .. } => ErrorCode::MatrixDimensionMismatch,
            MohuError::EigenDecompositionFailed { .. } => ErrorCode::EigenDecompositionFailed,
            MohuError::NotPositiveDefinite => ErrorCode::NotPositiveDefinite,
            MohuError::QRRankDeficient { .. } => ErrorCode::QRRankDeficient,
            MohuError::SVDNonConvergence { .. } => ErrorCode::SVDNonConvergence,
            MohuError::UnsupportedNormOrder { .. } => ErrorCode::UnsupportedNormOrder,
            MohuError::Io(..) => ErrorCode::Io,
            MohuError::InvalidMagic { .. } => ErrorCode::InvalidMagic,
            MohuError::UnsupportedVersion { .. } => ErrorCode::UnsupportedVersion,
            MohuError::CorruptData { .. } => ErrorCode::CorruptData,
            MohuError::UnexpectedEof { .. } => ErrorCode::UnexpectedEof,
            MohuError::UnsupportedCodec { .. } => ErrorCode::UnsupportedCodec,
            MohuError::NpyHeaderError { .. } => ErrorCode::NpyHeaderError,
            MohuError::NpzEntryNotFound { .. } => ErrorCode::NpzEntryNotFound,
            MohuError::CsvParseError { .. } => ErrorCode::CsvParseError,
            MohuError::DLPackUnsupportedDevice { .. } => ErrorCode::DLPackUnsupportedDevice,
            MohuError::DLPackVersionMismatch { .. } => ErrorCode::DLPackVersionMismatch,
            MohuError::DLPackNullPointer => ErrorCode::DLPackNullPointer,
            MohuError::DLPackUnsupportedDType { .. } => ErrorCode::DLPackUnsupportedDType,
            MohuError::DLPackInvalid(..) => ErrorCode::DLPackInvalid,
            MohuError::ArrowSchema(..) => ErrorCode::ArrowSchema,
            MohuError::ArrowIpc(..) => ErrorCode::ArrowIpc,
            MohuError::ArrowUnsupportedType { .. } => ErrorCode::ArrowUnsupportedType,
            MohuError::ArrowValidityError { .. } => ErrorCode::ArrowValidityError,
            MohuError::PythonType { .. } => ErrorCode::PythonType,
            MohuError::PythonValue(..) => ErrorCode::PythonValue,
            MohuError::PythonBuffer(..) => ErrorCode::PythonBuffer,
            MohuError::PythonNoBuffer => ErrorCode::PythonNoBuffer,
            MohuError::PythonUnsupportedBufferFormat { .. } => ErrorCode::PythonUnsupportedBufferFormat,
            MohuError::Context { .. } => ErrorCode::Context,
            MohuError::NotImplemented(..) => ErrorCode::NotImplemented,
            MohuError::Internal(..) => ErrorCode::Internal,
            MohuError::Multiple(..) => ErrorCode::Internal,
        }
    }

    /// Follows `Context` wrappers down to the root cause.
    pub fn root_cause(&self) -> (r: &MohuError)
        ensures
            *r == root_of(*self),
        decreases self,
    {
        match self {
            MohuError::Context { source, .. } => source.root_cause(),
            _ => self,
        }
    }

    /// Number of `Context` wrappers around the root cause.
    pub fn chain_depth(&self) -> (r: usize)
        requires
            depth_of(*self) <= usize::MAX,
        ensures
            r == depth_of(*self),
        decreases self,
    {
        match self {
            MohuError::Context { source, .. } => 1 + source.chain_depth(),
            _ => 0,
        }
    }

    /// Returns the coarse kind of this error, decided by its root cause.
    pub fn kind(&self) -> (r: ErrorKind)
        ensures
            r == error_kind(*self),
        decreases self,
    {
        match self {
            MohuError::Context { source, .. } => source.kind(),
            MohuError::Internal(_) => ErrorKind::Internal,
            MohuError::Multiple(m) => {
                let n = m.errors.len();
                proof {
                    assert(error_kind(*self) == gravest_kind(m.errors@, n as nat));
                }
                if n == 0 {
                    return ErrorKind::Internal;
                }
                proof {
                    assert(decreases_to!(self => m.errors@[0]));
                }
                let mut worst = m.errors[0].kind();
                let mut i: usize = 1;
                while i < n
                    invariant
                        1 <= i <= n,
                        n == m.errors@.len(),
                        *self == MohuError::Multiple(*m),
                        worst == gravest_kind(m.errors@, i as nat),
                    decreases n - i,
                {
                    proof {
                        let e = m.errors@[i as int];
                        assert(decreases_to!(m.errors@ => e));
                        assert(decreases_to!(m.errors => m.errors@));
                        assert((*self)->Multiple_0 == *m);
                        assert(decreases_to!(*self => (*self)->Multiple_0));
                        assert(decreases_to!(*m => m.errors));
                        assert(decreases_to!(self => e));
                    }
                    let k = m.errors[i].kind();
                    if kind_at_least(k, worst) {
                        worst = k;
                    }
                    i = i + 1;
                }
                worst
            },
            _ => ErrorKind::from(self.code()),
        }
    }

    /// Returns the severity: `Fatal` for an internal root cause, else `Error`.
    pub fn severity(&self) -> (r: Severity)
        ensures
            r == (if root_of(*self) is Internal { Severity::Fatal } else { Severity::Error }),
    {
        match self.root_cause() {
            MohuError::Internal(_) => Severity::Fatal,
            _ => Severity::Error,
        }
    }

    /// Returns `true` for errors that might go away on retry.
    pub fn is_transient(&self) -> (r: bool)
        ensures
            r == (*self is Io || *self is AllocationFailed),
    {
        match self {
            MohuError::Io(_) | MohuError::AllocationFailed { .. } => true,
            _ => false,
        }
    }

    /// Returns `true` if the error is a caller programming mistake.
    pub fn is_usage_error(&self) -> (r: bool)
        ensures
            r == is_usage_code(error_code(*self)),
    {
        match self.code() {
            ErrorCode::ShapeMismatch | ErrorCode::BroadcastError | ErrorCode::DimensionMismatch
            | ErrorCode::AxisOutOfRange | ErrorCode::DTypeMismatch | ErrorCode::InvalidCast
            | ErrorCode::IndexOutOfBounds | ErrorCode::TooManyIndices | ErrorCode::ZeroSliceStep
            | ErrorCode::SliceOutOfBounds | ErrorCode::ReshapeIncompatible
            | ErrorCode::BoolIndexShapeMismatch | ErrorCode::FancyIndexOutOfBounds => true,
            _ => false,
        }
    }
}


impl MohuError {
    /// Builds an `Internal` error, for guards on invariants that should never fail.
    pub fn bug(msg: String) -> (r: MohuError)
        ensures
            r matches MohuError::Internal(m) && m@ == msg@,
    {
        MohuError::Internal(msg)
    }

    /// Builds a `DomainError` for operation `op`.
    pub fn domain(op: &'static str, reason: String) -> (r: MohuError)
        ensures
            r matches MohuError::DomainError { op: o, reason: m } && o@ == op@ && m@ == reason@,
    {
        MohuError::DomainError { op, reason }
    }

    /// Builds a `MatrixDimensionMismatch` from `[rows, cols]` of both operands.
    pub fn matmul_shape(op: &'static str, lhs: [usize; 2], rhs: [usize; 2]) -> (r: MohuError)
        ensures
            r matches MohuError::MatrixDimensionMismatch { op: o, lhs_rows, lhs_cols, rhs_rows, rhs_cols }
                && o@ == op@ && lhs_rows == lhs[0] && lhs_cols == lhs[1] && rhs_rows == rhs[0]
                && rhs_cols == rhs[1],
    {
        MohuError::MatrixDimensionMismatch { op, lhs_rows: lhs[0], lhs_cols: lhs[1], rhs_rows: rhs[0], rhs_cols: rhs[1] }
    }
}


/// Whether `a` is at least as grave as `b`.
fn kind_at_least(a: ErrorKind, b: ErrorKind) -> (r: bool)
    ensures
        r == (kind_rank(a) >= kind_rank(b)),
{
    let ra: u8 = match a {
        ErrorKind::Usage => 0,
        ErrorKind::Runtime => 1,
        ErrorKind::System => 2,
        ErrorKind::Internal => 3,
    };
    let rb: u8 = match b {
        ErrorKind::Usage => 0,
        ErrorKind::Runtime => 1,
        ErrorKind::System => 2,
        ErrorKind::Internal => 3,
    };
    ra >= rb
}

/// Errors accumulated over one pass, in the order they occurred.
#[derive(Debug)]
pub struct MultiError {
    errors: Vec<MohuError>,
}

impl View for MultiError {
    type V = Seq<MohuError>;

    closed spec fn view(&self) -> Seq<MohuError> {
        self.errors@
    }
}

impl MultiError {
    /// An empty collection.
    pub fn new() -> (r: MultiError)
        ensures
            r@ == Seq::<MohuError>::empty(),
    {
        MultiError { errors: Vec::new() }
    }

    /// An empty collection with room for `capacity` errors.
    pub fn with_capacity(capacity: usize) -> (r: MultiError)
        ensures
            r@ == Seq::<MohuError>::empty(),
    {
        MultiError { errors: Vec::with_capacity(capacity) }
    }

    /// Appends `err`.
    pub fn push(&mut self, err: MohuError)
        ensures
            final(self)@ == old(self)@.push(err),
    {
        self.errors.push(err);
    }

    /// Appends the error of `result`, if it is one.
    pub fn collect<T>(&mut self, result: MohuResult<T>)
        ensures
            result matches Err(e) ==> final(self)@ == old(self)@.push(e),
            result is Ok ==> final(self)@ == old(self)@,
    {
        if let Err(e) = result {
            self.errors.push(e);
        }
    }

    /// Whether no error was collected.
    pub fn is_ok(&self) -> (r: bool)
        ensures
            r == (self@.len() == 0),
    {
        self.errors.len() == 0
    }

    /// Whether some error was collected.
    pub fn has_errors(&self) -> (r: bool)
        ensures
            r == (self@.len() > 0),
    {
        self.errors.len() > 0
    }

    /// The number of errors collected.
    pub fn len(&self) -> (r: usize)
        ensures
            r == self@.len(),
    {
        self.errors.len()
    }

    /// Whether no error was collected.
    pub fn is_empty(&self) -> (r: bool)
        ensures
            r == (self@.len() == 0),
    {
        self.errors.len() == 0
    }

    /// The errors collected, in order.
    pub fn iter(&self) -> (r: &[MohuError])
        ensures
            r@ == self@,
    {
        self.errors.as_slice()
    }

    /// `Ok` when nothing was collected, the error itself when exactly one
    /// was, else `Multiple` holding them all.
    pub fn into_result(self) -> (r: MohuResult<()>)
        ensures
            self@.len() == 0 ==> r is Ok,
            self@.len() == 1 ==> r == Err::<(), MohuError>(self@[0]),
            self@.len() > 1 ==> (r matches Err(MohuError::Multiple(m)) && m@ == self@),
    {
        let mut errors = self.errors;
        if errors.len() == 0 {
            Ok(())
        } else if errors.len() == 1 {
            Err(errors.remove(0))
        } else {
            Err(MohuError::Multiple(MultiError { errors }))
        }
    }

    /// The errors collected, in order.
    pub fn into_errors(self) -> (r: Vec<MohuError>)
        ensures
            r@ == self@,
    {
        self.errors
    }

    /// Appends the errors of `other`, in order.
    pub fn extend_from(&mut self, other: MultiError)
        ensures
            final(self)@ == old(self)@ + other@,
    {
        let mut more = other.errors;
        self.errors.append(&mut more);
    }
}


/// The Python built-in exception that an error is raised as.
#[derive(Debug, Clone, Copy, PartialEq, Eq, Structural)]
pub enum PyExceptionKind {
    /// `IndexError`: indexing and slicing.
    IndexError,
    /// `ValueError`: shapes, dtypes, computation, DLPack and Arrow data.
    ValueError,
    /// `TypeError`: wrong Python types and buffer formats.
    TypeError,
    /// `MemoryError`: allocation, alignment and address arithmetic.
    MemoryError,
    /// `BufferError`: contiguity, writeability and the buffer protocol.
    BufferError,
    /// `OSError`: I/O, file formats and Arrow IPC.
    OSError,
    /// `NotImplementedError`.
    NotImplementedError,
    /// `RuntimeError`: everything else.
    RuntimeError,
}

/// The Python exception of each error, by the mapping table of the Python
/// bindings: a context wrapper is raised as `RuntimeError`, not as the
/// error it wraps.
pub open spec fn spec_python_exception_kind(e: MohuError) -> PyExceptionKind {
    match e {
        MohuError::IndexOutOfBounds { .. }
        | MohuError::TooManyIndices { .. }
        | MohuError::ZeroSliceStep { .. }
        | MohuError::SliceOutOfBounds { .. }
        | MohuError::BoolIndexShapeMismatch { .. }
        | MohuError::FancyIndexOutOfBounds { .. } => PyExceptionKind::IndexError,
        MohuError::ShapeMismatch { .. }
        | MohuError::BroadcastError { .. }
        | MohuError::DimensionMismatch { .. }
        | MohuError::AxisOutOfRange { .. }
        | MohuError::ScalarArray { .. }
        | MohuError::ZeroSizedDimension { .. }
        | MohuError::ShapeOverflow { .. }
        | MohuError::ReshapeIncompatible { .. }
        | MohuError::EmptyStackSequence { .. }
        | MohuError::ConcatShapeMismatch { .. }
        | MohuError::DTypeMismatch { .. }
        | MohuError::InvalidCast { .. }
        | MohuError::Overflow { .. }
        | MohuError::Underflow { .. }
        | MohuError::UnknownDType { .. }
        | MohuError::UnsupportedDType { .. }
        | MohuError::AmbiguousPromotion { .. }
        | MohuError::SingularMatrix { .. }
        | MohuError::DomainError { .. }
        | MohuError::DivisionByZero { .. }
        | MohuError::MatrixDimensionMismatch { .. }
        | MohuError::EigenDecompositionFailed { .. }
        | MohuError::NotPositiveDefinite { .. }
        | MohuError::QRRankDeficient { .. }
        | MohuError::SVDNonConvergence { .. }
        | MohuError::UnsupportedNormOrder { .. }
        | MohuError::PythonValue { .. }
        | MohuError::DLPackUnsupportedDevice { .. }
        | MohuError::DLPackVersionMismatch { .. }
        | MohuError::DLPackUnsupportedDType { .. }
        | MohuError::DLPackInvalid { .. }
        | MohuError::ArrowSchema { .. }
        | MohuError::ArrowUnsupportedType { .. }
        | MohuError::ArrowValidityError { .. } => PyExceptionKind::ValueError,
        MohuError::PythonType { .. }
        | MohuError::PythonUnsupportedBufferFormat { .. } => PyExceptionKind::TypeError,
        MohuError::AllocationFailed { .. }
        | MohuError::AlignmentError { .. }
        | MohuError::BufferTooSmall { .. }
        | MohuError::OffsetOverflow { .. }
        | MohuError::OverlappingStrides { .. } => PyExceptionKind::MemoryError,
        MohuError::NonContiguous { .. }
        | MohuError::ReadOnly { .. }
        | MohuError::CannotResizeShared { .. }
        | MohuError::InvalidStride { .. }
        | MohuError::PythonBuffer { .. }
        | MohuError::PythonNoBuffer { .. } => PyExceptionKind::BufferError,
        MohuError::Io { .. }
        | MohuError::InvalidMagic { .. }
        | MohuError::UnsupportedVersion { .. }
        | MohuError::CorruptData { .. }
        | MohuError::UnexpectedEof { .. }
        | MohuError::UnsupportedCodec { .. }
        | MohuError::NpyHeaderError { .. }
        | MohuError::NpzEntryNotFound { .. }
        | MohuError::CsvParseError { .. }
        | MohuError::ArrowIpc { .. } => PyExceptionKind::OSError,
        MohuError::NotImplemented { .. } => PyExceptionKind::NotImplementedError,
        _ => PyExceptionKind::RuntimeError,
    }
}

/// The Python built-in exception that `e` is raised as.
pub fn python_exception_kind(e: &MohuError) -> (r: PyExceptionKind)
    ensures
        r == spec_python_exception_kind(*e),
{
    match e {
        MohuError::IndexOutOfBounds { .. }
        | MohuError::TooManyIndices { .. }
        | MohuError::ZeroSliceStep { .. }
        | MohuError::SliceOutOfBounds { .. }
        | MohuError::BoolIndexShapeMismatch { .. }
        | MohuError::FancyIndexOutOfBounds { .. } => PyExceptionKind::IndexError,
        MohuError::ShapeMismatch { .. }
        | MohuError::BroadcastError { .. }
        | MohuError::DimensionMismatch { .. }
        | MohuError::AxisOutOfRange { .. }
        | MohuError::ScalarArray { .. }
        | MohuError::ZeroSizedDimension { .. }
        | MohuError::ShapeOverflow { .. }
        | MohuError::ReshapeIncompatible { .. }
        | MohuError::EmptyStackSequence { .. }
        | MohuError::ConcatShapeMismatch { .. }
        | MohuError::DTypeMismatch { .. }
        | MohuError::InvalidCast { .. }
        | MohuError::Overflow { .. }
        | MohuError::Underflow { .. }
        | MohuError::UnknownDType { .. }
        | MohuError::UnsupportedDType { .. }
        | MohuError::AmbiguousPromotion { .. }
        | MohuError::SingularMatrix { .. }
        | MohuError::DomainError { .. }
        | MohuError::DivisionByZero { .. }
        | MohuError::MatrixDimensionMismatch { .. }
        | MohuError::EigenDecompositionFailed { .. }
        | MohuError::NotPositiveDefinite { .. }
        | MohuError::QRRankDeficient { .. }
        | MohuError::SVDNonConvergence { .. }
        | MohuError::UnsupportedNormOrder { .. }
        | MohuError::PythonValue { .. }
        | MohuError::DLPackUnsupportedDevice { .. }
        | MohuError::DLPackVersionMismatch { .. }
        | MohuError::DLPackUnsupportedDType { .. }
        | MohuError::DLPackInvalid { .. }
        | MohuError::ArrowSchema { .. }
        | MohuError::ArrowUnsupportedType { .. }
        | MohuError::ArrowValidityError { .. } => PyExceptionKind::ValueError,
        MohuError::PythonType { .. }
        | MohuError::PythonUnsupportedBufferFormat { .. } => PyExceptionKind::TypeError,
        MohuError::AllocationFailed { .. }
        | MohuError::AlignmentError { .. }
        | MohuError::BufferTooSmall { .. }
        | MohuError::OffsetOverflow { .. }
        | MohuError::OverlappingStrides { .. } => PyExceptionKind::MemoryError,
        MohuError::NonContiguous { .. }
        | MohuError::ReadOnly { .. }
        | MohuError::CannotResizeShared { .. }
        | MohuError::InvalidStride { .. }
        | MohuError::PythonBuffer { .. }
        | MohuError::PythonNoBuffer { .. } => PyExceptionKind::BufferError,
        MohuError::Io { .. }
        | MohuError::InvalidMagic { .. }
        | MohuError::UnsupportedVersion { .. }
        | MohuError::CorruptData { .. }
        | MohuError::UnexpectedEof { .. }
        | MohuError::UnsupportedCodec { .. }
        | MohuError::NpyHeaderError { .. }
        | MohuError::NpzEntryNotFound { .. }
        | MohuError::CsvParseError { .. }
        | MohuError::ArrowIpc { .. } => PyExceptionKind::OSError,
        MohuError::NotImplemented { .. } => PyExceptionKind::NotImplementedError,
        _ => PyExceptionKind::RuntimeError,
    }
}

} // verus!

//! DLPack type codes and devices, and their mapping to `DType`.
//!
//! DLPack describes an element type by a `(code, bits, lanes)` triple, where
//! `code` is 0 (int), 1 (uint), 2 (float), 4 (bfloat) or 5 (complex).  Bool
//! travels as an 8-bit unsigned integer, as PyTorch and JAX send it.
use vstd::prelude::*;
use vstd::string::StringExecFns;
use crate::dtype::{spec_itemsize, DType};
use crate::layout::{custom_error, custom_ok, layout_of, Layout};
use crate::strides::c_stride_acc;
use crate::error::{MohuError, MohuResult};
use crate::text::{decimal, push_decimal, string_of};

verus! {

/// The `code` field of a DLPack `DLDataType`.
#[derive(Debug, Clone, Copy, PartialEq, Eq, Hash, Structural)]
pub enum DLDataTypeCode {
    Int,
    UInt,
    Float,
    BFloat,
    Complex,
}

/// The raw DLPack number of each type code.
pub open spec fn spec_code_value(c: DLDataTypeCode) -> u8 {
    match c {
        DLDataTypeCode::Int => 0,
        DLDataTypeCode::UInt => 1,
        DLDataTypeCode::Float => 2,
        DLDataTypeCode::BFloat => 4,
        DLDataTypeCode::Complex => 5,
    }
}

/// The message of the error raised for a raw type code that DLPack does not define.
pub open spec fn unknown_type_code_text(code: nat) -> Seq<char> {
    "unknown DLDataType code "@ + decimal(code)
        + " — expected 0 (int), 1 (uint), 2 (float), 4 (bfloat), or 5 (complex)"@
}

/// The message of the error raised for a multi-lane element type.
pub open spec fn multi_lane_text(lanes: nat) -> Seq<char> {
    "mohu does not support multi-lane dtypes (lanes="@ + decimal(lanes)
        + "); only lanes=1 is supported"@
}

fn unknown_type_code_error(code: u8) -> (e: MohuError)
    ensures
        e matches MohuError::DLPackInvalid(m) && m@ == unknown_type_code_text(code as nat),
{
    let mut m = string_of("unknown DLDataType code ");
    push_decimal(&mut m, code as u64);
    m.append(" — expected 0 (int), 1 (uint), 2 (float), 4 (bfloat), or 5 (complex)");
    MohuError::DLPackInvalid(m)
}

impl DLDataTypeCode {
    /// The raw DLPack number of this code.
    pub fn as_u8(self) -> (r: u8)
        ensures
            r == spec_code_value(self),
    {
        match self {
            DLDataTypeCode::Int => 0,
            DLDataTypeCode::UInt => 1,
            DLDataTypeCode::Float => 2,
            DLDataTypeCode::BFloat => 4,
            DLDataTypeCode::Complex => 5,
        }
    }

    /// The type code with raw number `code`.
    ///
    /// Fails with `DLPackInvalid` for numbers other than 0, 1, 2, 4 and 5.
    pub fn from_u8(code: u8) -> (r: MohuResult<DLDataTypeCode>)
        ensures
            r matches Ok(c) ==> spec_code_value(c) == code,
            r is Err ==> (forall|c: DLDataTypeCode| spec_code_value(c) != code)
                && (r matches Err(MohuError::DLPackInvalid(m)) && m@ == unknown_type_code_text(code as nat)),
            (exists|c: DLDataTypeCode| spec_code_value(c) == code) ==> r is Ok,
    {
        match code {
            0 => Ok(DLDataTypeCode::Int),
            1 => Ok(DLDataTypeCode::UInt),
            2 => Ok(DLDataTypeCode::Float),
            4 => Ok(DLDataTypeCode::BFloat),
            5 => Ok(DLDataTypeCode::Complex),
            n => Err(unknown_type_code_error(n)),
        }
    }
}

/// A parsed DLPack `DLDataType`: type code, bits per lane and lane count.
#[derive(Debug, Clone, Copy, PartialEq, Eq, Hash, Structural)]
pub struct DLDataType {
    pub code: DLDataTypeCode,
    /// Bits per scalar element (per lane).
    pub bits: u8,
    /// Number of SIMD lanes; 1 for every mohu dtype.
    pub lanes: u16,
}

impl DLDataType {
    /// A single-lane data type.
    pub fn scalar(code: DLDataTypeCode, bits: u8) -> (r: DLDataType)
        ensures
            r == (DLDataType { code, bits, lanes: 1 }),
    {
        DLDataType { code, bits, lanes: 1 }
    }

    /// Parses a raw `(code, bits, lanes)` triple; fails as
    /// [`DLDataTypeCode::from_u8`] does when `code` is not a DLPack type code.
    pub fn from_raw(code: u8, bits: u8, lanes: u16) -> (r: MohuResult<DLDataType>)
        ensures
            r matches Ok(t) ==> spec_code_value(t.code) == code && t.bits == bits && t.lanes == lanes,
            r is Err ==> (forall|c: DLDataTypeCode| spec_code_value(c) != code)
                && (r matches Err(MohuError::DLPackInvalid(m)) && m@ == unknown_type_code_text(code as nat)),
            (exists|c: DLDataTypeCode| spec_code_value(c) == code) ==> r is Ok,
    {
        match DLDataTypeCode::from_u8(code) {
            Ok(c) => Ok(DLDataType { code: c, bits, lanes }),
            Err(e) => Err(e),
        }
    }

    /// The raw `(code, bits, lanes)` triple, as written into a C struct.
    pub fn to_raw(self) -> (r: (u8, u8, u16))
        ensures
            r == (spec_code_value(self.code), self.bits, self.lanes),
    {
        (self.code.as_u8(), self.bits, self.lanes)
    }
}

/// The DLPack data type of each dtype; every one has a single lane.
pub open spec fn spec_to_dlpack(d: DType) -> DLDataType {
    let (code, bits) = match d {
        DType::Bool => (DLDataTypeCode::UInt, 8u8),
        DType::I8 => (DLDataTypeCode::Int, 8u8),
        DType::I16 => (DLDataTypeCode::Int, 16u8),
        DType::I32 => (DLDataTypeCode::Int, 32u8),
        DType::I64 => (DLDataTypeCode::Int, 64u8),
        DType::U8 => (DLDataTypeCode::UInt, 8u8),
        DType::U16 => (DLDataTypeCode::UInt, 16u8),
        DType::U32 => (DLDataTypeCode::UInt, 32u8),
        DType::U64 => (DLDataTypeCode::UInt, 64u8),
        DType::F16 => (DLDataTypeCode::Float, 16u8),
        DType::BF16 => (DLDataTypeCode::BFloat, 16u8),
        DType::F32 => (DLDataTypeCode::Float, 32u8),
        DType::F64 => (DLDataTypeCode::Float, 64u8),
        DType::C64 => (DLDataTypeCode::Complex, 64u8),
        DType::C128 => (DLDataTypeCode::Complex, 128u8),
    };
    DLDataType { code, bits, lanes: 1 }
}

/// The dtype that a single-lane DLPack `(code, bits)` pair stands for, if any.
/// The unsigned 8-bit pair is read as U8: DLPack has no code of its own for Bool.
pub open spec fn dlpack_dtype(code: DLDataTypeCode, bits: u8) -> Option<DType> {
    match code {
        DLDataTypeCode::Int => if bits == 8 {
            Some(DType::I8)
        } else if bits == 16 {
            Some(DType::I16)
        } else if bits == 32 {
            Some(DType::I32)
        } else if bits == 64 {
            Some(DType::I64)
        } else {
            None
        },
        DLDataTypeCode::UInt => if bits == 8 {
            Some(DType::U8)
        } else if bits == 16 {
            Some(DType::U16)
        } else if bits == 32 {
            Some(DType::U32)
        } else if bits == 64 {
            Some(DType::U64)
        } else {
            None
        },
        DLDataTypeCode::Float => if bits == 16 {
            Some(DType::F16)
        } else if bits == 32 {
            Some(DType::F32)
        } else if bits == 64 {
            Some(DType::F64)
        } else {
            None
        },
        DLDataTypeCode::BFloat => if bits == 16 {
            Some(DType::BF16)
        } else {
            None
        },
        DLDataTypeCode::Complex => if bits == 64 {
            Some(DType::C64)
        } else if bits == 128 {
            Some(DType::C128)
        } else {
            None
        },
    }
}

impl DType {
    /// This dtype's DLPack data type (always one lane).
    pub fn to_dlpack(self) -> (r: DLDataType)
        ensures
            r == spec_to_dlpack(self),
    {
        match self {
            DType::Bool => DLDataType::scalar(DLDataTypeCode::UInt, 8),
            DType::I8 => DLDataType::scalar(DLDataTypeCode::Int, 8),
            DType::I16 => DLDataType::scalar(DLDataTypeCode::Int, 16),
            DType::I32 => DLDataType::scalar(DLDataTypeCode::Int, 32),
            DType::I64 => DLDataType::scalar(DLDataTypeCode::Int, 64),
            DType::U8 => DLDataType::scalar(DLDataTypeCode::UInt, 8),
            DType::U16 => DLDataType::scalar(DLDataTypeCode::UInt, 16),
            DType::U32 => DLDataType::scalar(DLDataTypeCode::UInt, 32),
            DType::U64 => DLDataType::scalar(DLDataTypeCode::UInt, 64),
            DType::F16 => DLDataType::scalar(DLDataTypeCode::Float, 16),
            DType::BF16 => DLDataType::scalar(DLDataTypeCode::BFloat, 16),
            DType::F32 => DLDataType::scalar(DLDataTypeCode::Float, 32),
            DType::F64 => DLDataType::scalar(DLDataTypeCode::Float, 64),
            DType::C64 => DLDataType::scalar(DLDataTypeCode::Complex, 64),
            DType::C128 => DLDataType::scalar(DLDataTypeCode::Complex, 128),
        }
    }

    /// The dtype of a raw DLPack `(code, bits, lanes)` triple.
    ///
    /// Fails with `DLPackInvalid` when `lanes != 1` or `code` is not a DLPack
    /// type code, and with `DLPackUnsupportedDType` when the `(code, bits)`
    /// pair has no dtype.  `(uint, 8)` gives U8, never Bool.
    pub fn from_dlpack(code: u8, bits: u8, lanes: u16) -> (r: MohuResult<DType>)
        ensures
            lanes != 1 ==> (r matches Err(MohuError::DLPackInvalid(m)) && m@ == multi_lane_text(lanes as nat)),
            lanes == 1 && (forall|c: DLDataTypeCode| spec_code_value(c) != code) ==> (r matches Err(
                MohuError::DLPackInvalid(m),
            ) && m@ == unknown_type_code_text(code as nat)),
            forall|c: DLDataTypeCode|
                lanes == 1 && #[trigger] spec_code_value(c) == code ==> match dlpack_dtype(c, bits) {
                    Some(d) => r == Ok::<DType, MohuError>(d),
                    None => r == Err::<DType, MohuError>(MohuError::DLPackUnsupportedDType { code, bits, lanes }),
                },
    {
        if lanes != 1 {
            let mut m = string_of("mohu does not support multi-lane dtypes (lanes=");
            push_decimal(&mut m, lanes as u64);
            m.append("); only lanes=1 is supported");
            return Err(MohuError::DLPackInvalid(m));
        }
        let kind = match DLDataTypeCode::from_u8(code) {
            Ok(k) => k,
            Err(e) => return Err(e),
        };
        let found = match kind {
            DLDataTypeCode::Int => if bits == 8 {
                Some(DType::I8)
            } else if bits == 16 {
                Some(DType::I16)
            } else if bits == 32 {
                Some(DType::I32)
            } else if bits == 64 {
                Some(DType::I64)
            } else {
                None
            },
            DLDataTypeCode::UInt => if bits == 8 {
                Some(DType::U8)
            } else if bits == 16 {
                Some(DType::U16)
            } else if bits == 32 {
                Some(DType::U32)
            } else if bits == 64 {
                Some(DType::U64)
            } else {
                None
            },
            DLDataTypeCode::Float => if bits == 16 {
                Some(DType::F16)
            } else if bits == 32 {
                Some(DType::F32)
            } else if bits == 64 {
                Some(DType::F64)
            } else {
                None
            },
            DLDataTypeCode::BFloat => if bits == 16 {
                Some(DType::BF16)
            } else {
                None
            },
            DLDataTypeCode::Complex => if bits == 64 {
                Some(DType::C64)
            } else if bits == 128 {
                Some(DType::C128)
            } else {
                None
            },
        };
        match found {
            Some(d) => Ok(d),
            None => Err(MohuError::DLPackUnsupportedDType { code, bits, lanes }),
        }
    }
}

/// Distinct type codes have distinct raw numbers.
pub proof fn lemma_code_value_injective(a: DLDataTypeCode, b: DLDataTypeCode)
    ensures
        spec_code_value(a) == spec_code_value(b) ==> a == b,
{
}

/// Reading back the DLPack data type of a dtype gives the dtype, except for
/// Bool, which comes back as U8.
pub proof fn lemma_dlpack_round_trip(d: DType)
    ensures
        spec_to_dlpack(d).lanes == 1,
        dlpack_dtype(spec_to_dlpack(d).code, spec_to_dlpack(d).bits) == Some(
            if d is Bool { DType::U8 } else { d },
        ),
{
}

/// DLPack device types.  Only `Cpu` and `CpuPinned` memory can be read by mohu;
/// the others are named in error messages.
#[derive(Debug, Clone, Copy, PartialEq, Eq, Hash, Structural)]
pub enum DLDeviceType {
    Cpu,
    Cuda,
    CpuPinned,
    OpenCL,
    Vulkan,
    Metal,
    Vpi,
    Rocm,
    ExtDev,
    CudaManaged,
    OneApi,
    WebGpu,
    Hexagon,
}

/// The raw DLPack number of each device type.
pub open spec fn spec_device_code(d: DLDeviceType) -> i32 {
    match d {
        DLDeviceType::Cpu => 1,
        DLDeviceType::Cuda => 2,
        DLDeviceType::CpuPinned => 3,
        DLDeviceType::OpenCL => 4,
        DLDeviceType::Vulkan => 7,
        DLDeviceType::Metal => 8,
        DLDeviceType::Vpi => 9,
        DLDeviceType::Rocm => 10,
        DLDeviceType::ExtDev => 12,
        DLDeviceType::CudaManaged => 13,
        DLDeviceType::OneApi => 14,
        DLDeviceType::WebGpu => 15,
        DLDeviceType::Hexagon => 16,
    }
}

/// The human-readable name of each device type.
pub open spec fn spec_device_name(d: DLDeviceType) -> Seq<char> {
    match d {
        DLDeviceType::Cpu => "CPU"@,
        DLDeviceType::Cuda => "CUDA"@,
        DLDeviceType::CpuPinned => "CPU (pinned)"@,
        DLDeviceType::OpenCL => "OpenCL"@,
        DLDeviceType::Vulkan => "Vulkan"@,
        DLDeviceType::Metal => "Metal"@,
        DLDeviceType::Vpi => "VPI"@,
        DLDeviceType::Rocm => "ROCm"@,
        DLDeviceType::ExtDev => "ExtDev"@,
        DLDeviceType::CudaManaged => "CUDA (managed)"@,
        DLDeviceType::OneApi => "OneAPI"@,
        DLDeviceType::WebGpu => "WebGPU"@,
        DLDeviceType::Hexagon => "Hexagon"@,
    }
}

/// Whether a raw device number names a device whose memory mohu can read.
pub open spec fn is_cpu_device_code(code: i32) -> bool {
    code == 1 || code == 3
}

impl DLDeviceType {
    /// The raw DLPack number of this device type.
    pub fn as_i32(self) -> (r: i32)
        ensures
            r == spec_device_code(self),
    {
        match self {
            DLDeviceType::Cpu => 1,
            DLDeviceType::Cuda => 2,
            DLDeviceType::CpuPinned => 3,
            DLDeviceType::OpenCL => 4,
            DLDeviceType::Vulkan => 7,
            DLDeviceType::Metal => 8,
            DLDeviceType::Vpi => 9,
            DLDeviceType::Rocm => 10,
            DLDeviceType::ExtDev => 12,
            DLDeviceType::CudaManaged => 13,
            DLDeviceType::OneApi => 14,
            DLDeviceType::WebGpu => 15,
            DLDeviceType::Hexagon => 16,
        }
    }

    /// The device type with raw number `code`, if DLPack defines one.
    pub fn from_i32(code: i32) -> (r: Option<DLDeviceType>)
        ensures
            r matches Some(d) ==> spec_device_code(d) == code,
            r is None <==> (forall|d: DLDeviceType| spec_device_code(d) != code),
    {
        let r = match code {
            1 => Some(DLDeviceType::Cpu),
            2 => Some(DLDeviceType::Cuda),
            3 => Some(DLDeviceType::CpuPinned),
            4 => Some(DLDeviceType::OpenCL),
            7 => Some(DLDeviceType::Vulkan),
            8 => Some(DLDeviceType::Metal),
            9 => Some(DLDeviceType::Vpi),
            10 => Some(DLDeviceType::Rocm),
            12 => Some(DLDeviceType::ExtDev),
            13 => Some(DLDeviceType::CudaManaged),
            14 => Some(DLDeviceType::OneApi),
            15 => Some(DLDeviceType::WebGpu),
            16 => Some(DLDeviceType::Hexagon),
            _ => None,
        };
        proof {
            if let Some(d) = r {
                assert(spec_device_code(d) == code);
            }
            if r is None {
                assert forall|d: DLDeviceType| spec_device_code(d) != code by {
                    match d {
                        DLDeviceType::Cpu => {},
                        DLDeviceType::Cuda => {},
                        DLDeviceType::CpuPinned => {},
                        DLDeviceType::OpenCL => {},
                        DLDeviceType::Vulkan => {},
                        DLDeviceType::Metal => {},
                        DLDeviceType::Vpi => {},
                        DLDeviceType::Rocm => {},
                        DLDeviceType::ExtDev => {},
                        DLDeviceType::CudaManaged => {},
                        DLDeviceType::OneApi => {},
                        DLDeviceType::WebGpu => {},
                        DLDeviceType::Hexagon => {},
                    }
                }
            }
        }
        r
    }

    /// Whether memory on this device can be read by the CPU (`Cpu` and `CpuPinned`).
    pub fn is_cpu_resident(self) -> (r: bool)
        ensures
            r <==> is_cpu_device_code(spec_device_code(self)),
            r <==> (self is Cpu || self is CpuPinned),
    {
        match self {
            DLDeviceType::Cpu => true,
            DLDeviceType::CpuPinned => true,
            _ => false,
        }
    }

    /// The human-readable device name.
    pub fn name(self) -> (r: &'static str)
        ensures
            r@ == spec_device_name(self),
    {
        match self {
            DLDeviceType::Cpu => "CPU",
            DLDeviceType::Cuda => "CUDA",
            DLDeviceType::CpuPinned => "CPU (pinned)",
            DLDeviceType::OpenCL => "OpenCL",
            DLDeviceType::Vulkan => "Vulkan",
            DLDeviceType::Metal => "Metal",
            DLDeviceType::Vpi => "VPI",
            DLDeviceType::Rocm => "ROCm",
            DLDeviceType::ExtDev => "ExtDev",
            DLDeviceType::CudaManaged => "CUDA (managed)",
            DLDeviceType::OneApi => "OneAPI",
            DLDeviceType::WebGpu => "WebGPU",
            DLDeviceType::Hexagon => "Hexagon",
        }
    }
}

/// Checks that a raw DLPack device number names CPU-readable memory.
///
/// Fails with `DLPackUnsupportedDevice` holding the number otherwise.
pub fn assert_cpu_device(device_type: i32) -> (r: MohuResult<()>)
    ensures
        is_cpu_device_code(device_type) ==> r is Ok,
        !is_cpu_device_code(device_type) ==> r == Err::<(), MohuError>(
            MohuError::DLPackUnsupportedDevice { device_type },
        ),
{
    proof {
        assert(spec_device_code(DLDeviceType::Cpu) == 1);
        assert(spec_device_code(DLDeviceType::CpuPinned) == 3);
    }
    match DLDeviceType::from_i32(device_type) {
        Some(d) => {
            if d.is_cpu_resident() {
                Ok(())
            } else {
                Err(MohuError::DLPackUnsupportedDevice { device_type })
            }
        },
        None => Err(MohuError::DLPackUnsupportedDevice { device_type }),
    }
}


/// Distinct device types have distinct raw numbers, so parsing the number of
/// a device type gives that device type back.
pub proof fn lemma_device_code_injective(a: DLDeviceType, b: DLDeviceType)
    ensures
        spec_device_code(a) == spec_device_code(b) ==> a == b,
{
}


// ─── Importing a DLPack tensor ───────────────────────────────────────────────

/// The layout outcome of importing a DLPack tensor of dtype `d` once its
/// device and dtype are accepted: `DLPackInvalid` for a null data pointer;
/// else the dimensions converted to `usize`, and a C-order layout when no
/// strides are given, else the strides (in elements) times the element size
/// as byte strides, both from offset 0, failing as [`Layout::new_custom`]
/// does.
pub open spec fn dlpack_layout_outcome(
    d: DType,
    data_is_null: bool,
    shape: Seq<i64>,
    strides: Option<Seq<i64>>,
    r: MohuResult<(DType, Layout)>,
) -> bool {
    let isz = spec_itemsize(d) as usize;
    let sh = Seq::new(shape.len(), |i: int| shape[i] as usize);
    if data_is_null {
        r matches Err(MohuError::DLPackInvalid(m)) && m@ == "DLTensor.data is null"@
    } else {
        let st = match strides {
            None => Seq::new(sh.len(), |i: int| c_stride_acc(sh, isz, i + 1)),
            Some(s) => Seq::new(s.len(), |i: int| (s[i] * (isz as i64)) as isize),
        };
        &&& r is Ok <==> custom_ok(sh, st, isz)
        &&& r matches Ok(p) ==> p.0 == d && p.1@ == layout_of(sh, st, 0, isz)
        &&& r matches Err(e) ==> custom_error(e, sh, st, isz)
    }
}

/// Every element stride in `s` times the element size of `d` stays within
/// `i64`.
pub open spec fn dlpack_strides_fit(d: DType, s: Seq<i64>) -> bool {
    forall|i: int| 0 <= i < s.len() ==> i64::MIN <= (#[trigger] s[i]) * spec_itemsize(d) <= i64::MAX
}

/// The element type and layout of a DLPack tensor read from its fields:
/// the raw device number, the dtype's code, bits and lanes, whether the data
/// pointer is null, the dimensions, and the strides in elements (`None` for
/// a C-order tensor). Fails with `DLPackUnsupportedDevice` for memory the
/// CPU cannot read, then as [`DType::from_dlpack`] does, then as
/// [`dlpack_layout_outcome`] describes.
pub fn buffer_layout_from_dlpack(
    device: i32,
    code: u8,
    bits: u8,
    lanes: u16,
    data_is_null: bool,
    shape: &[i64],
    strides: Option<&[i64]>,
) -> (r: MohuResult<(DType, Layout)>)
    requires
        forall|c: DLDataTypeCode|
            lanes == 1 && #[trigger] spec_code_value(c) == code ==> (dlpack_dtype(c, bits) matches Some(d)
                ==> (strides matches Some(s) ==> dlpack_strides_fit(d, s@))),
    ensures
        !is_cpu_device_code(device) ==> r == Err::<(DType, Layout), MohuError>(
            MohuError::DLPackUnsupportedDevice { device_type: device },
        ),
        is_cpu_device_code(device) && lanes != 1 ==> (r matches Err(MohuError::DLPackInvalid(m)) && m@
            == multi_lane_text(lanes as nat)),
        is_cpu_device_code(device) && lanes == 1 && (forall|c: DLDataTypeCode| spec_code_value(c) != code) ==> (r matches Err(
            MohuError::DLPackInvalid(m),
        ) && m@ == unknown_type_code_text(code as nat)),
        forall|c: DLDataTypeCode|
            is_cpu_device_code(device) && lanes == 1 && #[trigger] spec_code_value(c) == code ==> match dlpack_dtype(
                c,
                bits,
            ) {
                Some(d) => dlpack_layout_outcome(
                    d,
                    data_is_null,
                    shape@,
                    match strides {
                        Some(s) => Some(s@),
                        None => None,
                    },
                    r,
                ),
                None => r == Err::<(DType, Layout), MohuError>(MohuError::DLPackUnsupportedDType { code, bits, lanes }),
            },
{
    assert_cpu_device(device)?;
    let dtype = match DType::from_dlpack(code, bits, lanes) {
        Ok(d) => d,
        Err(e) => return Err(e),
    };
    if data_is_null {
        return Err(MohuError::DLPackInvalid(string_of("DLTensor.data is null")));
    }
    let isz = dtype.itemsize();
    proof {
        assert(lanes == 1);
        assert(exists|c: DLDataTypeCode| #[trigger] spec_code_value(c) == code);
        let c = choose|c: DLDataTypeCode| #[trigger] spec_code_value(c) == code;
        assert(dlpack_dtype(c, bits) == Some(dtype));
        assert(strides matches Some(s) ==> dlpack_strides_fit(dtype, s@));
    }
    let mut sh: Vec<usize> = Vec::new();
    let mut i: usize = 0;
    while i < shape.len()
        invariant
            i <= shape@.len(),
            sh@ == Seq::new(i as nat, |j: int| shape@[j] as usize),
        decreases shape@.len() - i,
    {
        sh.push(#[verifier::truncate] (shape[i] as usize));
        proof {
            assert(sh@ =~= Seq::new((i + 1) as nat, |j: int| shape@[j] as usize));
        }
        i = i + 1;
    }
    match strides {
        None => {
            let l = Layout::new_c(sh.as_slice(), isz)?;
            Ok((dtype, l))
        },
        Some(s) => {
            let mut bs: Vec<isize> = Vec::new();
            let mut j: usize = 0;
            while j < s.len()
                invariant
                    j <= s@.len(),
                    dlpack_strides_fit(dtype, s@),
                    isz == spec_itemsize(dtype),
                    bs@ == Seq::new(j as nat, |k: int| (s@[k] * (isz as i64)) as isize),
                decreases s@.len() - j,
            {
                proof {
                    assert(0 <= j < s@.len());
                    assert(i64::MIN <= s@[j as int] * spec_itemsize(dtype) <= i64::MAX);
                }
                bs.push(#[verifier::truncate] ((s[j] * (isz as i64)) as isize));
                proof {
                    assert(bs@ =~= Seq::new((j + 1) as nat, |k: int| (s@[k] * (isz as i64)) as isize));
                }
                j = j + 1;
            }
            let l = Layout::new_custom(sh.as_slice(), bs.as_slice(), 0, isz)?;
            Ok((dtype, l))
        },
    }
}

} // verus!

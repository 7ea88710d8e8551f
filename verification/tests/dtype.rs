use arrow::datatypes::DataType as ArrowType;
use mohu::compat::ByteOrder;
use mohu::dlpack::{assert_cpu_device, buffer_layout_from_dlpack, DLDataType, DLDataTypeCode, DLDeviceType};
use mohu::dtype::DType;
use mohu::error::MohuError;
use mohu::iinfo::IntInfo;
use mohu::promote::{can_cast, common_type, promote, result_type, weak_promote, CastMode};

#[test]
fn f32_properties() {
    let f = DType::F32;
    assert_eq!(f.itemsize(), 4);
    assert_eq!(f.alignment(), 4);
    assert_eq!(f.bit_width(), 32);
    assert_eq!(f.to_string(), "float32");
    assert_eq!(f.numpy_char(), Some('f'));
    assert_eq!(f.kind_char(), 'f');
    assert_eq!(f.array_interface_typestr(), "<f4");
    assert_eq!(f.buffer_format(), "<f");
}

#[test]
fn itemsizes_and_typestrs() {
    assert_eq!(DType::Bool.itemsize(), 1);
    assert_eq!(DType::C128.itemsize(), 16);
    assert_eq!(DType::BF16.itemsize(), 2);
    assert_eq!(DType::Bool.array_interface_typestr(), "|b1");
    assert_eq!(DType::C64.array_interface_typestr(), "<c8");
    assert_eq!(DType::U16.array_interface_typestr(), "<u2");
    assert_eq!(DType::C128.alignment(), 8);
}

#[test]
fn classification() {
    assert!(DType::I32.is_integer() && DType::I32.is_signed_integer() && !DType::I32.is_unsigned_integer());
    assert!(DType::U8.is_unsigned_integer());
    assert!(!DType::Bool.is_integer() && DType::Bool.is_bool() && !DType::Bool.is_numeric());
    assert!(DType::BF16.is_float() && DType::BF16.is_brain_float() && !DType::BF16.is_standard_float());
    assert!(DType::C128.is_complex() && DType::C128.is_floating_point() && !DType::C128.is_ordered());
    assert!(DType::F64.is_ordered() && DType::F64.is_standard_float());
}

#[test]
fn conversion_helpers() {
    assert_eq!(DType::F32.complex_dtype(), DType::C64);
    assert_eq!(DType::C128.real_dtype(), DType::F64);
    assert_eq!(DType::U16.as_signed(), DType::I16);
    assert_eq!(DType::I64.as_unsigned(), DType::U64);
    assert_eq!(DType::I32.widen(), DType::I64);
    assert_eq!(DType::I64.widen(), DType::I64);
    assert_eq!(DType::Bool.widen(), DType::U8);
    assert_eq!(DType::I64.to_float(), DType::F64);
    assert_eq!(DType::U8.to_float(), DType::F16);
    assert_eq!(DType::F64.narrow(), Some(DType::F32));
    assert_eq!(DType::I8.narrow(), None);
    assert_eq!(DType::I16.max_decimal_digits(), Some(5));
    assert_eq!(DType::F16.max_decimal_digits(), None);
}

#[test]
fn parse_names_and_aliases() {
    assert_eq!(DType::parse("int64").unwrap(), DType::I64);
    assert_eq!(DType::parse("f4").unwrap(), DType::F32);
    assert_eq!(DType::parse("complex128").unwrap(), DType::C128);
    assert_eq!(DType::parse("  Float64 ").unwrap(), DType::F64);
    assert_eq!(DType::parse("B").unwrap(), DType::U8);
    assert_eq!(DType::parse("b").unwrap(), DType::I8);
    assert_eq!(DType::parse("D").unwrap(), DType::C128);
    assert_eq!(DType::parse("bfloat16").unwrap(), DType::BF16);
}

#[test]
fn parse_unknown_reports_trimmed_text() {
    match DType::parse(" float128 ") {
        Err(MohuError::UnknownDType(s)) => assert_eq!(s, "float128"),
        other => panic!("unexpected {other:?}"),
    }
}

#[test]
fn parse_every_numpy_name_round_trips() {
    for d in DType::all() {
        assert_eq!(DType::parse(d.numpy_str()).unwrap(), d);
    }
}

#[test]
fn codes_round_trip() {
    let all = DType::all();
    assert_eq!(all.len(), 15);
    for (i, d) in all.iter().enumerate() {
        assert_eq!(d.as_u8() as usize, i);
        assert_eq!(DType::from_u8(d.as_u8()).unwrap(), *d);
    }
    match DType::from_u8(15) {
        Err(MohuError::UnknownDType(s)) => assert_eq!(s, "dtype code 15"),
        other => panic!("unexpected {other:?}"),
    }
}

#[test]
fn promotion_examples() {
    assert_eq!(promote(DType::I32, DType::F32), DType::F64);
    assert_eq!(promote(DType::F16, DType::F32), DType::F32);
    assert_eq!(promote(DType::I64, DType::F32), DType::F64);
    assert_eq!(promote(DType::C64, DType::F64), DType::C128);
    assert_eq!(promote(DType::Bool, DType::I8), DType::I8);
    assert_eq!(promote(DType::U8, DType::I8), DType::I16);
    assert_eq!(result_type(DType::U16, DType::I16).unwrap(), DType::I32);
}

#[test]
fn promotion_is_symmetric_and_idempotent() {
    for a in DType::all() {
        assert_eq!(promote(a, a), a);
        for b in DType::all() {
            assert_eq!(promote(a, b), promote(b, a));
        }
    }
}

#[test]
fn common_type_examples() {
    assert_eq!(common_type(&[DType::I8, DType::F32, DType::I16]).unwrap(), DType::F32);
    assert_eq!(common_type(&[DType::U8]).unwrap(), DType::U8);
    assert!(matches!(common_type(&[]), Err(MohuError::Internal(_))));
}

#[test]
fn cast_modes() {
    assert!(can_cast(DType::I8, DType::I16, CastMode::Safe));
    assert!(can_cast(DType::F32, DType::F64, CastMode::Safe));
    assert!(can_cast(DType::U8, DType::I16, CastMode::Safe));
    assert!(!can_cast(DType::F64, DType::F32, CastMode::Safe));
    assert!(!can_cast(DType::U8, DType::I8, CastMode::Safe));
    assert!(can_cast(DType::F64, DType::F32, CastMode::SameKind));
    assert!(can_cast(DType::I32, DType::I16, CastMode::SameKind));
    assert!(!can_cast(DType::F32, DType::I32, CastMode::SameKind));
    assert!(!can_cast(DType::C64, DType::F32, CastMode::SameKind));
    assert!(can_cast(DType::C64, DType::F32, CastMode::Unsafe));
    assert!(can_cast(DType::F64, DType::I32, CastMode::Unsafe));
}

#[test]
fn weak_promotion() {
    assert_eq!(weak_promote(DType::I8, DType::I64, true), DType::I8);
    assert_eq!(weak_promote(DType::F32, DType::F64, true), DType::F32);
    assert_eq!(weak_promote(DType::I8, DType::I64, false), DType::I64);
    assert_eq!(weak_promote(DType::I32, DType::F64, true), DType::F64);
}

#[test]
fn int_info_values() {
    let i = IntInfo::of(DType::I32).unwrap();
    assert_eq!(i.min, -2147483648);
    assert_eq!(i.max, 2147483647);
    assert_eq!(i.bits, 32);
    assert!(i.is_signed);
    assert!(i.can_hold_i128(1000));
    assert!(!i.can_hold_i128(1i128 << 40));
    assert!(IntInfo::i8().can_hold_i128(-128));
    assert!(!IntInfo::i8().can_hold_i128(-129));
    assert!(!IntInfo::u8().can_hold_i128(-1));
    assert!(IntInfo::u64().can_hold_u128(u64::MAX as u128));
    assert!(!IntInfo::u64().can_hold_u128(u64::MAX as u128 + 1));
    assert!(matches!(IntInfo::of(DType::F32), Err(MohuError::UnsupportedDType { op: "iinfo", .. })));
}

#[test]
fn minimum_int_types() {
    assert_eq!(IntInfo::minimum_signed_type_for(100), DType::I8);
    assert_eq!(IntInfo::minimum_signed_type_for(-129), DType::I16);
    assert_eq!(IntInfo::minimum_signed_type_for(1 << 40), DType::I64);
    assert_eq!(IntInfo::minimum_unsigned_type_for(255), DType::U8);
    assert_eq!(IntInfo::minimum_unsigned_type_for(256), DType::U16);
    assert_eq!(IntInfo::minimum_unsigned_type_for(u64::MAX), DType::U64);
}

#[test]
fn struct_and_buffer_formats() {
    assert_eq!(DType::I16.to_struct_format().unwrap(), "=h");
    assert!(matches!(DType::C64.to_struct_format(), Err(MohuError::UnsupportedDType { op: "struct format", .. })));
    assert_eq!(DType::BF16.struct_format_char(), None);
    assert_eq!(DType::C64.buffer_format(), "<Zf");
    assert_eq!(DType::from_buffer_format("<f").unwrap(), DType::F32);
    assert_eq!(DType::from_buffer_format("=Zd").unwrap(), DType::C128);
    assert_eq!(DType::from_buffer_format("l").unwrap(), DType::I32);
    match DType::from_buffer_format("<x") {
        Err(MohuError::PythonUnsupportedBufferFormat { format }) => assert_eq!(format, "x"),
        other => panic!("unexpected {other:?}"),
    }
}

#[test]
fn buffer_format_round_trip() {
    for d in DType::all() {
        let back = DType::from_buffer_format(d.buffer_format()).unwrap();
        if d == DType::BF16 {
            assert_eq!(back, DType::F16);
        } else {
            assert_eq!(back, d);
        }
    }
}

#[test]
fn type_names() {
    assert_eq!(DType::I32.ctypes_name(), Some("c_int32"));
    assert_eq!(DType::F16.ctypes_name(), None);
    assert_eq!(DType::C64.c_type_name(), "float _Complex");
    assert_eq!(DType::BF16.rust_type_name(), "half::bf16");
}

#[test]
fn byte_orders() {
    assert_eq!(ByteOrder::for_itemsize(1), ByteOrder::NotApplicable);
    assert_eq!(ByteOrder::Little.struct_prefix(), '<');
    let little = u16::from_ne_bytes([1, 0]) == 1;
    assert_eq!(ByteOrder::host_is_little_endian(), little);
    assert_eq!(ByteOrder::for_itemsize(8), ByteOrder::Native);
    if little {
        assert_eq!(ByteOrder::host(), ByteOrder::Little);
    } else {
        assert_eq!(ByteOrder::host(), ByteOrder::Big);
    }
}

#[test]
fn dlpack_examples() {
    let dt = DType::F32.to_dlpack();
    assert_eq!(dt.code, DLDataTypeCode::Float);
    assert_eq!(dt.bits, 32);
    assert_eq!(dt.lanes, 1);
    assert_eq!(dt.to_raw(), (2, 32, 1));
    assert_eq!(DLDataType::from_raw(4, 16, 1).unwrap(), DLDataType::scalar(DLDataTypeCode::BFloat, 16));
    assert_eq!(DLDataTypeCode::Complex.as_u8(), 5);
}

#[test]
fn dlpack_round_trip() {
    for d in DType::all() {
        let (code, bits, lanes) = d.to_dlpack().to_raw();
        let back = DType::from_dlpack(code, bits, lanes).unwrap();
        if d == DType::Bool {
            assert_eq!(back, DType::U8);
        } else {
            assert_eq!(back, d);
        }
    }
}

#[test]
fn dlpack_errors() {
    match DType::from_dlpack(2, 32, 4) {
        Err(MohuError::DLPackInvalid(m)) => {
            assert_eq!(m, "mohu does not support multi-lane dtypes (lanes=4); only lanes=1 is supported")
        },
        other => panic!("unexpected {other:?}"),
    }
    match DType::from_dlpack(3, 32, 1) {
        Err(MohuError::DLPackInvalid(m)) => assert_eq!(
            m,
            "unknown DLDataType code 3 — expected 0 (int), 1 (uint), 2 (float), 4 (bfloat), or 5 (complex)"
        ),
        other => panic!("unexpected {other:?}"),
    }
    assert!(matches!(
        DType::from_dlpack(2, 8, 1),
        Err(MohuError::DLPackUnsupportedDType { code: 2, bits: 8, lanes: 1 })
    ));
    assert!(matches!(DLDataTypeCode::from_u8(9), Err(MohuError::DLPackInvalid(_))));
}

#[test]
fn dlpack_devices() {
    assert_eq!(DLDeviceType::from_i32(2), Some(DLDeviceType::Cuda));
    assert_eq!(DLDeviceType::from_i32(5), None);
    assert_eq!(DLDeviceType::Cuda.as_i32(), 2);
    assert!(DLDeviceType::CpuPinned.is_cpu_resident());
    assert!(!DLDeviceType::Metal.is_cpu_resident());
    assert_eq!(DLDeviceType::CudaManaged.name(), "CUDA (managed)");
    assert!(assert_cpu_device(1).is_ok());
    assert!(assert_cpu_device(3).is_ok());
    assert!(matches!(assert_cpu_device(2), Err(MohuError::DLPackUnsupportedDevice { device_type: 2 })));
    assert!(matches!(assert_cpu_device(99), Err(MohuError::DLPackUnsupportedDevice { device_type: 99 })));
}

#[test]
fn arrow_types_round_trip() {
    assert_eq!(DType::F32.to_arrow(), Some(ArrowType::Float32));
    assert_eq!(DType::Bool.to_arrow(), Some(ArrowType::Boolean));
    assert_eq!(DType::U16.to_arrow(), Some(ArrowType::UInt16));
    assert_eq!(DType::BF16.to_arrow(), None);
    assert_eq!(DType::C128.to_arrow(), None);
    for d in DType::all() {
        if let Some(a) = d.to_arrow() {
            assert_eq!(DType::from_arrow(&a).unwrap(), d);
        }
    }
    match DType::from_arrow(&ArrowType::Utf8) {
        Err(MohuError::ArrowUnsupportedType { arrow_type }) => assert_eq!(arrow_type, "Utf8"),
        other => panic!("unexpected {other:?}"),
    }
}

#[test]
fn dlpack_tensor_layouts() {
    // float32 (code 2, 32 bits), C order.
    let (d, l) = buffer_layout_from_dlpack(1, 2, 32, 1, false, &[2, 3], None).unwrap();
    assert_eq!(d, DType::F32);
    assert_eq!(l.shape(), &[2, 3]);
    assert_eq!(l.strides(), &[12, 4]);
    // Element strides become byte strides.
    let (_, t) = buffer_layout_from_dlpack(1, 2, 32, 1, false, &[2, 3], Some(&[1, 2])).unwrap();
    assert_eq!(t.strides(), &[4, 8]);
    assert!(matches!(
        buffer_layout_from_dlpack(2, 2, 32, 1, false, &[2], None),
        Err(MohuError::DLPackUnsupportedDevice { device_type: 2 })
    ));
    assert!(matches!(
        buffer_layout_from_dlpack(1, 2, 32, 1, true, &[2], None),
        Err(MohuError::DLPackInvalid(_))
    ));
    assert!(matches!(
        buffer_layout_from_dlpack(1, 2, 32, 4, false, &[2], None),
        Err(MohuError::DLPackInvalid(_))
    ));
}

#[test]
fn parse_padded_upper_case_names() {
    for d in [DType::Bool, DType::I8, DType::U64, DType::BF16, DType::C128] {
        let padded = format!(" {} ", d.numpy_str().to_ascii_uppercase());
        assert_eq!(DType::parse(&padded).unwrap(), d);
    }
}

use mohu::buffer::Buffer;
use mohu::dtype::DType;
use mohu::error::MohuError;
use mohu::ops::{abs_copy_integers, cast_copy_plan, fill, neg_copy_integers, CastPlan};
use mohu::promote::CastMode;
use mohu::strides::validate_strides;
use mohu::cast::{check_scalar_cast, check_slice_cast};

#[test]
fn typed_get_set_round_trip() {
    let mut b = Buffer::zeros(DType::I32, &[2, 2]).unwrap();
    b.set::<i32>(&[1, 0], -7).unwrap();
    assert_eq!(b.get::<i32>(&[1, 0]).unwrap(), -7);
    assert_eq!(b.get::<i32>(&[0, 1]).unwrap(), 0);
    assert!(matches!(b.get::<i64>(&[0, 0]), Err(MohuError::DTypeMismatch { .. })));
    assert!(matches!(b.set::<u8>(&[0, 0], 1), Err(MohuError::DTypeMismatch { .. })));
    assert!(matches!(b.get::<i32>(&[2, 0]), Err(MohuError::IndexOutOfBounds { .. })));
}

#[test]
fn typed_slices_and_vectors() {
    let b = Buffer::from_slice::<i16>(&[1, -2, 300]).unwrap();
    assert_eq!(b.dtype(), DType::I16);
    assert_eq!(b.shape(), &[3]);
    assert_eq!(b.to_vec::<i16>().unwrap(), vec![1, -2, 300]);
    let v = Buffer::from_vec::<u64>(vec![u64::MAX, 0]).unwrap();
    assert_eq!(v.to_vec::<u64>().unwrap(), vec![u64::MAX, 0]);
    assert!(matches!(v.to_vec::<i64>(), Err(MohuError::DTypeMismatch { .. })));
    let t = Buffer::from_slice::<i32>(&[1, 2, 3, 4, 5, 6]).unwrap().reshape(&[2, 3]).unwrap().transpose();
    assert_eq!(t.to_vec::<i32>().unwrap(), vec![1, 4, 2, 5, 3, 6]);
}

#[test]
fn typed_fill() {
    let mut b = Buffer::zeros(DType::U16, &[3]).unwrap();
    fill::<u16>(&mut b, 513).unwrap();
    assert_eq!(b.to_vec::<u16>().unwrap(), vec![513, 513, 513]);
    assert!(matches!(fill::<i16>(&mut b, 1), Err(MohuError::DTypeMismatch { .. })));
}

#[test]
fn cast_plans() {
    let a = Buffer::zeros(DType::I32, &[3]).unwrap();
    let same = Buffer::zeros(DType::I32, &[3]).unwrap();
    let wide = Buffer::zeros(DType::I64, &[3]).unwrap();
    let narrow = Buffer::zeros(DType::I8, &[3]).unwrap();
    let short = Buffer::zeros(DType::I64, &[2]).unwrap();
    assert_eq!(cast_copy_plan(&a, &same, CastMode::Safe).unwrap(), CastPlan::Copy);
    assert_eq!(cast_copy_plan(&a, &wide, CastMode::Safe).unwrap(), CastPlan::Convert);
    match cast_copy_plan(&a, &narrow, CastMode::Safe) {
        Err(MohuError::InvalidCast { from, to, reason }) => {
            assert_eq!(from, "int32");
            assert_eq!(to, "int8");
            assert_eq!(reason, "Safe cast is not permitted");
        },
        other => panic!("unexpected {other:?}"),
    }
    assert!(matches!(cast_copy_plan(&a, &short, CastMode::Unsafe), Err(MohuError::ShapeMismatch { .. })));
    let ro = wide.share();
    assert!(matches!(cast_copy_plan(&a, &ro, CastMode::Safe), Err(MohuError::ReadOnly)));
}

#[test]
fn integer_negation_and_absolute_value() {
    let src = Buffer::from_slice::<i8>(&[5, -3, i8::MIN, 0]).unwrap();
    let mut dst = Buffer::zeros(DType::I8, &[4]).unwrap();
    neg_copy_integers(&src, &mut dst).unwrap();
    assert_eq!(dst.to_vec::<i8>().unwrap(), vec![-5, 3, i8::MIN, 0]);
    abs_copy_integers(&src, &mut dst).unwrap();
    assert_eq!(dst.to_vec::<i8>().unwrap(), vec![5, 3, i8::MIN, 0]);
    let u = Buffer::from_slice::<u32>(&[0, 1, 7]).unwrap();
    let mut ud = Buffer::zeros(DType::U32, &[3]).unwrap();
    neg_copy_integers(&u, &mut ud).unwrap();
    assert_eq!(ud.to_vec::<u32>().unwrap(), vec![0, u32::MAX, u32::MAX - 6]);
    abs_copy_integers(&u, &mut ud).unwrap();
    assert_eq!(ud.to_vec::<u32>().unwrap(), vec![0, 1, 7]);
}

#[test]
fn overlap_check_on_large_layouts() {
    // 2^80 positions over a span of about 3 * 2^40 bytes must share some.
    assert!(matches!(
        validate_strides(&[1 << 40, 1 << 40], &[1, 2], 1, true),
        Err(MohuError::OverlappingStrides { .. })
    ));
    // A large C-order layout: each stride exceeds the span after it.
    assert!(validate_strides(&[1 << 20, 1 << 20, 1 << 20], &[1 << 40, 1 << 20, 1], 1, true).is_ok());
    // A Fortran-order layout, checked position by position.
    assert!(validate_strides(&[64, 64], &[1, 64], 1, true).is_ok());
}

#[test]
fn overlap_check_takes_extreme_strides() {
    // One axis of the largest stride magnitude and the largest dimension.
    assert!(validate_strides(&[usize::MAX], &[isize::MIN], 1, true).is_ok());
    // The stride of the first axis exceeds everything the second one spans.
    assert!(validate_strides(&[2, 1 << 62], &[isize::MIN, 2], 2, true).is_ok());
    // Interleaved strides near 2^62 with distinct offsets: 0, 3 * 2^61, 2^62 and their sum.
    assert!(validate_strides(&[2, 2], &[1 << 62, 3 << 61], 1 << 61, true).is_ok());
    // Equal strides near 2^62: the two middle positions share an offset.
    assert!(matches!(
        validate_strides(&[2, 2], &[1 << 62, 1 << 62], 1 << 62, true),
        Err(MohuError::OverlappingStrides { .. })
    ));
    // Small interleaved strides: 0, 3, 2, 5 are distinct; 0, 3, 3, 6 are not.
    assert!(validate_strides(&[2, 2], &[2, 3], 1, true).is_ok());
    assert!(matches!(
        validate_strides(&[2, 2], &[3, 3], 1, true),
        Err(MohuError::OverlappingStrides { .. })
    ));
    // Read-only views are never checked for overlap.
    assert!(validate_strides(&[usize::MAX, usize::MAX], &[1, 1], 1, false).is_ok());
}

#[test]
fn scalar_and_slice_cast_checks() {
    assert!(check_scalar_cast(DType::I16, DType::F64, CastMode::Safe).is_ok());
    assert!(check_scalar_cast(DType::F64, DType::I32, CastMode::Unsafe).is_ok());
    match check_scalar_cast(DType::F64, DType::I32, CastMode::Safe) {
        Err(MohuError::InvalidCast { from, to, reason }) => {
            assert_eq!(from, DType::F64.to_string());
            assert_eq!(to, DType::I32.to_string());
            assert_eq!(reason, "Safe cast is not allowed");
        },
        other => panic!("unexpected {:?}", other),
    }
    match check_slice_cast(DType::I8, DType::I16, 3, 2, CastMode::Safe) {
        Err(MohuError::ShapeMismatch { expected, got }) => {
            assert_eq!(expected, vec![3]);
            assert_eq!(got, vec![2]);
        },
        other => panic!("unexpected {:?}", other),
    }
    assert!(check_slice_cast(DType::I8, DType::I16, 2, 2, CastMode::Safe).is_ok());
    match check_slice_cast(DType::F64, DType::I32, 2, 2, CastMode::SameKind) {
        Err(MohuError::InvalidCast { reason, .. }) => assert_eq!(reason, "SameKind cast is not allowed"),
        other => panic!("unexpected {:?}", other),
    }
}

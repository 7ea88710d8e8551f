use mohu::error::MohuError;
use mohu::strides::{
    broadcast_strides, byte_offset, c_strides, contiguous_nbytes, f_strides, ravel_multi_index, shape_size,
    unravel_index, validate_strides, NdIndexIter, StridedByteIter,
};

#[test]
fn c_strides_correct() {
    // [2, 3, 4] f64 (itemsize=8): C-order strides = [96, 32, 8]
    let shape = [2usize, 3, 4];
    let s = c_strides(&shape, 8);
    assert_eq!(s.as_slice(), &[96_isize, 32, 8]);
}

#[test]
fn f_strides_correct() {
    // [2, 3, 4] f64: F-order strides = [8, 16, 48]
    let shape = [2usize, 3, 4];
    let s = f_strides(&shape, 8);
    assert_eq!(s.as_slice(), &[8_isize, 16, 48]);
}

#[test]
fn broadcast_strides_zero_for_size_one_axes() {
    let src_shape = [1usize, 4];
    let src_strides = c_strides(&src_shape, 4);
    let tgt_shape = [3usize, 4];
    let bs = broadcast_strides(&src_shape, src_strides.as_slice(), &tgt_shape).unwrap();
    assert_eq!(bs.as_slice()[0], 0); // size-1 axis → 0-stride
    assert_ne!(bs.as_slice()[1], 0);
}

#[test]
fn nd_index_iter_c_order() {
    let shape = [2usize, 3];
    let mut it = NdIndexIter::new(&shape);
    let mut indices = Vec::new();
    while let Some(i) = it.next() {
        indices.push(i);
    }
    assert_eq!(indices.len(), 6);
    assert_eq!(indices[0].as_slice(), &[0usize, 0]);
    assert_eq!(indices[1].as_slice(), &[0, 1]);
    assert_eq!(indices[3].as_slice(), &[1, 0]);
    assert_eq!(indices[5].as_slice(), &[1, 2]);
}

#[test]
fn strides_of_scalar_shape_are_empty() {
    assert!(c_strides(&[], 8).as_slice().is_empty());
    assert!(f_strides(&[], 8).as_slice().is_empty());
}

#[test]
fn strides_saturate_on_overflow() {
    let s = c_strides(&[2, 1usize << 62, 4], 8);
    assert_eq!(s.as_slice()[2], 8);
    assert_eq!(s.as_slice()[1], 32);
    assert_eq!(s.as_slice()[0], isize::MAX);
}

#[test]
fn shape_size_products() {
    assert_eq!(shape_size(&[2, 3, 4]).unwrap(), 24);
    assert_eq!(shape_size(&[]).unwrap(), 1);
    assert_eq!(shape_size(&[5, 0, 7]).unwrap(), 0);
}

#[test]
fn shape_size_overflow_error() {
    let r = shape_size(&[usize::MAX, 2]);
    assert!(matches!(r, Err(MohuError::ShapeOverflow { .. })));
}

#[test]
fn contiguous_nbytes_values() {
    assert_eq!(contiguous_nbytes(&[2, 3], 8).unwrap(), 48);
    assert_eq!(contiguous_nbytes(&[], 4).unwrap(), 4);
    assert!(contiguous_nbytes(&[usize::MAX / 2, 4], 8).is_err());
}

#[test]
fn broadcast_strides_incompatible_error() {
    let r = broadcast_strides(&[3], &[8], &[4]);
    assert!(matches!(r, Err(MohuError::BroadcastError { .. })));
}

#[test]
fn broadcast_strides_prepends_zero_axes() {
    let bs = broadcast_strides(&[4], &[8], &[2, 3, 4]).unwrap();
    assert_eq!(bs.as_slice(), &[0, 0, 8]);
}

#[test]
fn unravel_then_ravel_round_trip() {
    let shape = [2usize, 3, 4];
    for flat in 0..24usize {
        let idx = unravel_index(flat, &shape).unwrap();
        assert_eq!(ravel_multi_index(idx.as_slice(), &shape).unwrap(), flat);
    }
    assert_eq!(unravel_index(17, &shape).unwrap().as_slice(), &[1, 1, 1]);
}

#[test]
fn unravel_out_of_bounds() {
    let r = unravel_index(6, &[2, 3]);
    assert!(matches!(r, Err(MohuError::IndexOutOfBounds { index: 6, axis: 0, size: 6 })));
}

#[test]
fn ravel_errors() {
    assert!(matches!(ravel_multi_index(&[1], &[2, 3]), Err(MohuError::TooManyIndices { .. })));
    assert!(matches!(
        ravel_multi_index(&[1, 3], &[2, 3]),
        Err(MohuError::IndexOutOfBounds { index: 3, axis: 1, size: 3 })
    ));
    assert_eq!(ravel_multi_index(&[1, 2], &[2, 3]).unwrap(), 5);
}

#[test]
fn byte_offset_sums_products() {
    assert_eq!(byte_offset(&[1, 2], &[24, 8], 4), 44);
    assert_eq!(byte_offset(&[1, 2], &[-24, 8], 100), 92);
}

#[test]
fn strided_byte_iter_transposed() {
    // A 2x3 C-contiguous f32 array viewed transposed: shape [3, 2], strides [4, 12].
    let mut it = StridedByteIter::new(&[3, 2], &[4, 12], 0);
    let mut offs = Vec::new();
    while let Some(o) = it.next() {
        offs.push(o);
    }
    assert_eq!(offs, vec![0, 12, 4, 16, 8, 20]);
}

#[test]
fn nd_index_iter_size_hint_and_total() {
    let mut it = NdIndexIter::new(&[2, 2]);
    assert_eq!(it.total(), 4);
    assert_eq!(it.size_hint(), (4, Some(4)));
    it.next();
    assert_eq!(it.size_hint(), (3, Some(3)));
}

#[test]
fn nd_index_iter_empty_shape_yields_nothing() {
    let mut it = NdIndexIter::new(&[3, 0]);
    assert!(it.next().is_none());
}

#[test]
fn nd_index_iter_scalar_yields_once() {
    let mut it = NdIndexIter::new(&[]);
    assert_eq!(it.next().unwrap().as_slice(), &[] as &[usize]);
    assert!(it.next().is_none());
}

#[test]
fn validate_strides_cases() {
    assert!(validate_strides(&[2, 3], &[24, 8], 8, true).is_ok());
    assert!(matches!(
        validate_strides(&[2, 3], &[24, 5], 8, false),
        Err(MohuError::InvalidStride { axis: 1, stride: 5, element_size: 8 })
    ));
    assert!(matches!(
        validate_strides(&[2, 3], &[8, 8], 8, true),
        Err(MohuError::OverlappingStrides { .. })
    ));
    // Overlap is allowed for read-only views (e.g. broadcasts).
    assert!(validate_strides(&[2, 3], &[0, 8], 8, false).is_ok());
    // A Fortran-order layout does not overlap either.
    assert!(validate_strides(&[2, 3], &[8, 16], 8, true).is_ok());
    // Interleaved strides whose offsets 0, 2, 3, 5 are all distinct.
    assert!(validate_strides(&[2, 2], &[3, 2], 1, true).is_ok());
    // Offsets 0, 2, 2, 4 repeat.
    assert!(matches!(validate_strides(&[2, 2], &[2, 2], 1, true), Err(MohuError::OverlappingStrides { .. })));
    // A broadcast axis is left out of the overlap check.
    assert!(validate_strides(&[4, 3], &[0, 8], 8, true).is_ok());
}

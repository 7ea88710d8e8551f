use mohu::error::MohuError;
use mohu::layout::{Layout, SliceArg};

fn full() -> SliceArg {
    SliceArg { start: None, stop: None, step: None }
}

#[test]
fn new_c_and_f_layouts() {
    let c = Layout::new_c(&[2, 3, 4], 8).unwrap();
    assert_eq!(c.shape(), &[2, 3, 4]);
    assert_eq!(c.strides(), &[96, 32, 8]);
    assert_eq!(c.size(), 24);
    assert_eq!(c.nbytes(), 192);
    assert_eq!(c.ndim(), 3);
    assert!(c.is_c_contiguous() && c.is_contiguous() && !c.is_f_contiguous());
    let f = Layout::new_f(&[2, 3, 4], 8).unwrap();
    assert_eq!(f.strides(), &[8, 16, 48]);
    assert!(f.is_f_contiguous() && !f.is_c_contiguous());
}

#[test]
fn scalar_layout() {
    let s = Layout::scalar(4);
    assert!(s.is_scalar());
    assert_eq!(s.size(), 1);
    assert_eq!(s.nbytes(), 4);
    assert!(s.is_c_contiguous() && s.is_f_contiguous());
}

#[test]
fn new_custom_errors() {
    assert!(matches!(Layout::new_custom(&[2, 3], &[8], 0, 8), Err(MohuError::Internal(_))));
    assert!(matches!(Layout::new_custom(&[2], &[8], 0, 0), Err(MohuError::Internal(_))));
    assert!(matches!(
        Layout::new_custom(&[2, 3], &[24, 4], 0, 8),
        Err(MohuError::InvalidStride { axis: 1, stride: 4, element_size: 8 })
    ));
    let l = Layout::new_custom(&[2, 3], &[24, 8], 16, 8).unwrap();
    assert_eq!(l.offset(), 16);
}

#[test]
fn reshape_1d_to_3d_layout() {
    let l = Layout::new_c(&[24], 4).unwrap();
    let r = l.reshape(&[2, 3, 4]).unwrap();
    assert_eq!(r.shape(), &[2, 3, 4]);
    assert_eq!(r.strides(), &[48, 16, 4]);
}

#[test]
fn reshape_errors() {
    let l = Layout::new_c(&[2, 3], 4).unwrap();
    assert!(matches!(
        l.reshape(&[4, 2]),
        Err(MohuError::ReshapeIncompatible { src_len: 6, dst_len: 8, .. })
    ));
    let t = l.transpose();
    assert!(matches!(t.reshape(&[6]), Err(MohuError::NonContiguous)));
}

#[test]
fn transpose_reverses_axes() {
    let l = Layout::new_c(&[2, 3], 8).unwrap();
    let t = l.transpose();
    assert_eq!(t.shape(), &[3, 2]);
    assert_eq!(t.strides(), &[8, 24]);
    assert!(t.is_f_contiguous());
    // Transposing twice gives the same layout back.
    assert_eq!(t.transpose(), l);
}

#[test]
fn permute_3d_shape_layout() {
    let l = Layout::new_c(&[2, 3, 4], 4).unwrap();
    let p = l.permute(&[2, 0, 1]).unwrap();
    assert_eq!(p.shape(), &[4, 2, 3]);
    assert_eq!(p.strides(), &[4, 48, 16]);
}

#[test]
fn permute_errors() {
    let l = Layout::new_c(&[2, 3], 4).unwrap();
    assert!(matches!(l.permute(&[0]), Err(MohuError::DimensionMismatch { expected: 2, got: 1 })));
    assert!(matches!(l.permute(&[0, 2]), Err(MohuError::AxisOutOfRange { axis: 2, ndim: 2, .. })));
    assert!(matches!(l.permute(&[1, 1]), Err(MohuError::Internal(_))));
}

#[test]
fn slice_axis_rows_layout() {
    // Rows 1..3 of a 4x3 i32 matrix.
    let l = Layout::new_c(&[4, 3], 4).unwrap();
    let s = l.slice_axis(0, SliceArg { start: Some(1), stop: Some(3), step: None }).unwrap();
    assert_eq!(s.shape(), &[2, 3]);
    assert_eq!(s.offset(), 12);
    assert_eq!(s.strides(), &[12, 4]);
}

#[test]
fn slice_axis_with_step_layout() {
    // Every other element of a 10-element vector.
    let l = Layout::new_c(&[10], 8).unwrap();
    let s = l.slice_axis(0, SliceArg { start: None, stop: None, step: Some(2) }).unwrap();
    assert_eq!(s.shape(), &[5]);
    assert_eq!(s.strides(), &[16]);
}

#[test]
fn slice_axis_reversed() {
    let l = Layout::new_c(&[5], 4).unwrap();
    let s = l.slice_axis(0, SliceArg { start: Some(4), stop: Some(0), step: Some(-1) }).unwrap();
    assert_eq!(s.shape(), &[4]);
    assert_eq!(s.strides(), &[-4]);
    assert_eq!(s.offset(), 16);
}

#[test]
fn slice_axis_errors() {
    let l = Layout::new_c(&[5], 4).unwrap();
    assert!(matches!(l.slice_axis(1, full()), Err(MohuError::AxisOutOfRange { axis: 1, ndim: 1, .. })));
    assert!(matches!(
        l.slice_axis(0, SliceArg { start: None, stop: None, step: Some(0) }),
        Err(MohuError::ZeroSliceStep)
    ));
}

#[test]
fn slice_resolve_values() {
    assert_eq!(full().resolve(5).unwrap(), (0, 5, 1));
    assert_eq!(SliceArg { start: Some(-2), stop: None, step: None }.resolve(5).unwrap(), (3, 2, 1));
    assert_eq!(SliceArg { start: Some(1), stop: Some(8), step: Some(3) }.resolve(5).unwrap(), (1, 2, 3));
    assert_eq!(SliceArg { start: None, stop: Some(0), step: Some(-2) }.resolve(5).unwrap(), (4, 2, -2));
    // Without a stop, a reversed slice runs through index 0, as in Python.
    assert_eq!(SliceArg { start: None, stop: None, step: Some(-2) }.resolve(5).unwrap(), (4, 3, -2));
    assert_eq!(SliceArg { start: None, stop: None, step: Some(-1) }.resolve(5).unwrap(), (4, 5, -1));
    // A start past the end of a reversed slice begins at the last index.
    assert_eq!(SliceArg { start: Some(10), stop: None, step: Some(-2) }.resolve(5).unwrap(), (4, 3, -2));
    // A stop far before index 0 is "before the first index".
    assert_eq!(SliceArg { start: Some(-1), stop: Some(-10), step: Some(-1) }.resolve(5).unwrap(), (4, 5, -1));
    assert_eq!(SliceArg { start: Some(-10), stop: None, step: Some(-1) }.resolve(5).unwrap().1, 0);
    assert_eq!(SliceArg { start: None, stop: None, step: Some(-1) }.resolve(0).unwrap().1, 0);
    assert_eq!(SliceArg { start: Some(3), stop: Some(3), step: None }.resolve(5).unwrap(), (3, 0, 1));
    assert!(matches!(SliceArg { start: None, stop: None, step: Some(0) }.resolve(5), Err(MohuError::ZeroSliceStep)));
}

#[test]
fn broadcast_scalar_to_matrix_layout() {
    let s = Layout::scalar(8);
    let b = s.broadcast_to(&[3, 4]).unwrap();
    assert_eq!(b.shape(), &[3, 4]);
    assert_eq!(b.strides(), &[0, 0]);
}

#[test]
fn broadcast_row_to_matrix_layout() {
    let row = Layout::new_c(&[1, 4], 8).unwrap();
    let b = row.broadcast_to(&[3, 4]).unwrap();
    assert_eq!(b.shape(), &[3, 4]);
    assert_eq!(b.strides(), &[0, 8]);
    assert!(matches!(row.broadcast_to(&[3, 5]), Err(MohuError::BroadcastError { .. })));
}

#[test]
fn expand_and_squeeze() {
    let l = Layout::new_c(&[2, 3], 4).unwrap();
    let e = l.expand_dims(1).unwrap();
    assert_eq!(e.shape(), &[2, 1, 3]);
    assert_eq!(e.squeeze().shape(), &[2, 3]);
    assert_eq!(e.squeeze_axis(1).unwrap().shape(), &[2, 3]);
    assert!(matches!(e.squeeze_axis(0), Err(MohuError::Internal(_))));
    assert!(matches!(e.squeeze_axis(3), Err(MohuError::AxisOutOfRange { axis: 3, ndim: 3, .. })));
    assert!(matches!(l.expand_dims(3), Err(MohuError::AxisOutOfRange { axis: 3, ndim: 2, .. })));
}

#[test]
fn byte_offsets() {
    let l = Layout::new_c(&[2, 3], 8).unwrap();
    assert_eq!(l.byte_offset(&[1, 2]).unwrap(), 40);
    assert_eq!(l.byte_offset_unchecked(&[1, 1]), 32);
    assert!(matches!(l.byte_offset(&[1]), Err(MohuError::TooManyIndices { given: 1, ndim: 2 })));
    assert!(matches!(
        l.byte_offset(&[2, 0]),
        Err(MohuError::IndexOutOfBounds { index: 2, axis: 0, size: 2 })
    ));
}

#[test]
fn byte_range_span_and_overlap() {
    let l = Layout::new_c(&[2, 3], 8).unwrap();
    assert_eq!(l.byte_range(), (0, 40));
    assert_eq!(l.span(), 48);
    let rev = Layout::new_c(&[5], 4)
        .unwrap()
        .slice_axis(0, SliceArg { start: Some(4), stop: Some(0), step: Some(-1) })
        .unwrap();
    assert_eq!(rev.byte_range(), (4, 16));
    let a = Layout::new_custom(&[4], &[4], 0, 4).unwrap();
    let b = Layout::new_custom(&[4], &[4], 12, 4).unwrap();
    let c = Layout::new_custom(&[4], &[4], 16, 4).unwrap();
    assert!(a.overlaps_with(&b));
    assert!(!a.overlaps_with(&c));
}

#[test]
fn empty_layout_properties() {
    let l = Layout::new_c(&[3, 0], 4).unwrap();
    assert!(l.is_empty());
    assert_eq!(l.size(), 0);
    assert_eq!(l.span(), 0);
}

#[test]
fn to_c_contiguous_resets() {
    let t = Layout::new_c(&[2, 3], 8).unwrap().transpose();
    let c = t.to_c_contiguous();
    assert_eq!(c.shape(), &[3, 2]);
    assert_eq!(c.strides(), &[16, 8]);
    assert_eq!(c.offset(), 0);
}

#[test]
fn normalise_axis_values() {
    let l = Layout::new_c(&[2, 3, 4], 4).unwrap();
    assert_eq!(l.normalise_axis(-1).unwrap(), 2);
    assert_eq!(l.normalise_axis(0).unwrap(), 0);
    assert!(matches!(l.normalise_axis(3), Err(MohuError::AxisOutOfRange { axis: 3, ndim: 3, .. })));
    assert!(matches!(l.normalise_axis(-4), Err(MohuError::AxisOutOfRange { axis: -4, ndim: 3, .. })));
}

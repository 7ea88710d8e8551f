use mohu::buffer::{Buffer, BufferFlags};
use mohu::dtype::DType;
use mohu::error::MohuError;
use mohu::layout::{Order, SliceArg};
use mohu::ops::{
    argmax_flat_with_byte_order, argmin_flat_with_byte_order, copy_to_contiguous, fill_one, fill_raw, fill_zero,
    flip_axis_copy, gather, gather_with_byte_order, scatter,
    scatter_with_byte_order,
};

fn f64_bytes(values: &[f64]) -> Vec<u8> {
    values.iter().flat_map(|v| v.to_ne_bytes()).collect()
}

fn f32_bytes(values: &[f32]) -> Vec<u8> {
    values.iter().flat_map(|v| v.to_ne_bytes()).collect()
}

fn i32_bytes(values: &[i32]) -> Vec<u8> {
    values.iter().flat_map(|v| v.to_ne_bytes()).collect()
}

fn as_f64(bytes: &[u8]) -> Vec<f64> {
    bytes.chunks(8).map(|c| f64::from_ne_bytes(c.try_into().unwrap())).collect()
}

fn as_f32(bytes: &[u8]) -> Vec<f32> {
    bytes.chunks(4).map(|c| f32::from_ne_bytes(c.try_into().unwrap())).collect()
}

fn as_i32(bytes: &[u8]) -> Vec<i32> {
    bytes.chunks(4).map(|c| i32::from_ne_bytes(c.try_into().unwrap())).collect()
}

fn get_f64(b: &Buffer, idx: &[usize]) -> f64 {
    f64::from_ne_bytes(b.get_bytes(idx).unwrap().as_slice().try_into().unwrap())
}

fn get_f32(b: &Buffer, idx: &[usize]) -> f32 {
    f32::from_ne_bytes(b.get_bytes(idx).unwrap().as_slice().try_into().unwrap())
}

fn get_i32(b: &Buffer, idx: &[usize]) -> i32 {
    i32::from_ne_bytes(b.get_bytes(idx).unwrap().as_slice().try_into().unwrap())
}

fn f64_buffer(values: &[f64]) -> Buffer {
    Buffer::from_bytes(DType::F64, &[values.len()], f64_bytes(values)).unwrap()
}

// ── Allocation ───────────────────────────────────────────────────────────────

#[test]
fn zeros_shape_and_values() {
    let buf = Buffer::zeros(DType::F64, &[3, 4]).unwrap();
    assert_eq!(buf.shape(), &[3, 4]);
    assert_eq!(buf.dtype(), DType::F64);
    assert!(as_f64(&buf.to_bytes().unwrap()).iter().all(|&x| x == 0.0));
}

#[test]
fn ones_values() {
    let buf = Buffer::ones(DType::F32, &[8]).unwrap();
    assert!(as_f32(&buf.to_bytes().unwrap()).iter().all(|&x| x == 1.0_f32));
}

#[test]
fn full_fills_bytes() {
    let fill: f32 = 3.15;
    let buf = Buffer::full(DType::F32, &[5, 5], &fill.to_le_bytes()).unwrap();
    let values: Vec<f32> = buf
        .to_bytes()
        .unwrap()
        .chunks(4)
        .map(|c| f32::from_le_bytes(c.try_into().unwrap()))
        .collect();
    assert!(values.iter().all(|&x| (x - 3.15_f32).abs() < 1e-6));
}

// ── from_bytes + reshape + get/set ───────────────────────────────────────────

#[test]
fn from_slice_round_trips_1d() {
    let data: Vec<i32> = (0..12).collect();
    let buf = Buffer::from_bytes(DType::I32, &[12], i32_bytes(&data)).unwrap();
    assert_eq!(as_i32(&buf.to_bytes().unwrap()), data);
}

#[test]
fn from_slice_reshape_to_2d() {
    let data: Vec<i32> = (0..12).collect();
    let buf = Buffer::from_bytes(DType::I32, &[12], i32_bytes(&data)).unwrap().reshape(&[3, 4]).unwrap();
    assert_eq!(buf.shape(), &[3, 4]);
    assert_eq!(get_i32(&buf, &[1, 0]), 4);
}

#[test]
fn get_set_roundtrip() {
    let mut buf = Buffer::zeros(DType::F64, &[4, 4]).unwrap();
    buf.set_bytes(&[1, 2], &99.0_f64.to_ne_bytes()).unwrap();
    assert_eq!(get_f64(&buf, &[1, 2]), 99.0_f64);
}

// ── Layout transforms ────────────────────────────────────────────────────────

#[test]
fn reshape_1d_to_3d() {
    let data: Vec<f32> = (0..24).map(|x| x as f32).collect();
    let buf = Buffer::from_bytes(DType::F32, &[24], f32_bytes(&data)).unwrap();
    let r = buf.reshape(&[2, 3, 4]).unwrap();
    assert_eq!(r.shape(), &[2, 3, 4]);
    assert_eq!(get_f32(&r, &[1, 2, 3]), 23.0_f32);
}

#[test]
fn transpose_2d_shape_and_values() {
    let data: Vec<f64> = (0..6).map(|x| x as f64).collect();
    let buf = f64_buffer(&data).reshape(&[2, 3]).unwrap();
    let t = buf.transpose();
    assert_eq!(t.shape(), &[3, 2]);
    assert_eq!(get_f64(&t, &[1, 0]), 1.0_f64);
    assert_eq!(get_f64(&t, &[2, 1]), 5.0_f64);
}

#[test]
fn permute_3d_shape() {
    let data: Vec<f32> = (0..24).map(|x| x as f32).collect();
    let buf = Buffer::from_bytes(DType::F32, &[24], f32_bytes(&data)).unwrap().reshape(&[2, 3, 4]).unwrap();
    let p = buf.permute(&[2, 0, 1]).unwrap();
    assert_eq!(p.shape(), &[4, 2, 3]);
}

// ── Slice axis ───────────────────────────────────────────────────────────────

#[test]
fn slice_axis_rows() {
    let data: Vec<f64> = (0..12).map(|x| x as f64).collect();
    let buf = f64_buffer(&data).reshape(&[4, 3]).unwrap();
    let s = buf.slice_axis(0, SliceArg { start: Some(1), stop: Some(3), step: Some(1) }).unwrap();
    assert_eq!(s.shape(), &[2, 3]);
    assert_eq!(get_f64(&s, &[0, 0]), 3.0_f64);
    assert_eq!(get_f64(&s, &[0, 2]), 5.0_f64);
}

#[test]
fn slice_axis_with_step() {
    let data: Vec<i32> = (0..10).collect();
    let buf = Buffer::from_bytes(DType::I32, &[10], i32_bytes(&data)).unwrap();
    let s = buf.slice_axis(0, SliceArg { start: Some(0), stop: Some(10), step: Some(2) }).unwrap();
    assert_eq!(s.shape(), &[5]);
    assert_eq!(get_i32(&s, &[2]), 4);
}

// ── broadcast_to ─────────────────────────────────────────────────────────────

#[test]
fn broadcast_scalar_to_matrix() {
    let buf = f64_buffer(&[42.0]).reshape(&[1, 1]).unwrap();
    let b = buf.broadcast_to(&[3, 4]).unwrap();
    assert_eq!(b.shape(), &[3, 4]);
    for r in 0..3 {
        for c in 0..4 {
            assert_eq!(get_f64(&b, &[r, c]), 42.0_f64);
        }
    }
}

#[test]
fn broadcast_row_to_matrix() {
    let buf = Buffer::from_bytes(DType::F32, &[3], f32_bytes(&[1.0, 2.0, 3.0])).unwrap().reshape(&[1, 3]).unwrap();
    let b = buf.broadcast_to(&[4, 3]).unwrap();
    assert_eq!(b.shape(), &[4, 3]);
    for r in 0..4 {
        assert_eq!(get_f32(&b, &[r, 1]), 2.0_f32);
    }
}

// ── Fill / copy ──────────────────────────────────────────────────────────────

#[test]
fn parallel_fill_large_buffer() {
    let mut buf = Buffer::allocate(DType::F32, &[1024, 1024], Order::C).unwrap();
    fill_raw(&mut buf, &7.0_f32.to_ne_bytes()).unwrap();
    assert!(as_f32(&buf.to_bytes().unwrap()).iter().all(|&x| x == 7.0_f32));
}

#[test]
fn fill_zero_clears_values() {
    let mut buf = Buffer::ones(DType::F64, &[100]).unwrap();
    fill_zero(&mut buf).unwrap();
    assert!(as_f64(&buf.to_bytes().unwrap()).iter().all(|&x| x == 0.0));
}

#[test]
fn copy_to_contiguous_from_transposed() {
    let data: Vec<f64> = (0..9).map(|x| x as f64).collect();
    let src = f64_buffer(&data).reshape(&[3, 3]).unwrap().transpose();
    assert!(!src.is_c_contiguous());
    let mut dst = Buffer::allocate(DType::F64, &[3, 3], Order::C).unwrap();
    copy_to_contiguous(&src, &mut dst).unwrap();
    assert_eq!(get_f64(&dst, &[0, 1]), 3.0_f64);
    assert_eq!(get_f64(&dst, &[1, 0]), 1.0_f64);
}

// ── Further behaviour ────────────────────────────────────────────────────────

#[test]
fn fresh_buffer_flags() {
    let c = Buffer::zeros(DType::F64, &[2, 3]).unwrap();
    assert!(c.is_writeable() && c.is_c_contiguous() && !c.is_f_contiguous() && c.is_aligned());
    assert!(c.flags().contains(BufferFlags::owns_data()));
    let f = Buffer::allocate(DType::F64, &[2, 3], Order::F).unwrap();
    assert!(f.is_f_contiguous() && !f.is_c_contiguous());
    assert_eq!(f.strides(), &[8, 16]);
    assert_eq!(c.nbytes(), 48);
    assert_eq!(c.len(), 6);
    assert_eq!(c.ndim(), 2);
    assert_eq!(c.itemsize(), 8);
    assert_eq!(c.offset(), 0);
    assert!(!c.is_empty());
    assert!(Buffer::zeros(DType::U8, &[0, 3]).unwrap().is_empty());
}

#[test]
fn ones_of_every_integer_width() {
    let b = Buffer::ones(DType::I16, &[2]).unwrap();
    let v: Vec<i16> = b.to_bytes().unwrap().chunks(2).map(|c| i16::from_ne_bytes(c.try_into().unwrap())).collect();
    assert_eq!(v, vec![1, 1]);
    let b = Buffer::ones_with_byte_order(DType::U32, &[1], false).unwrap();
    assert_eq!(b.to_bytes().unwrap(), vec![0, 0, 0, 1]);
    let b = Buffer::ones_with_byte_order(DType::F16, &[1], true).unwrap();
    assert_eq!(b.to_bytes().unwrap(), vec![0x00, 0x3C]);
}

#[test]
fn full_rejects_wrong_length() {
    let r = Buffer::full(DType::F32, &[2], &[1, 2, 3]);
    assert!(matches!(r, Err(MohuError::Internal(_))));
}

#[test]
fn from_bytes_rejects_wrong_length() {
    let r = Buffer::from_bytes(DType::I32, &[3], vec![0u8; 8]);
    assert!(matches!(r, Err(MohuError::Internal(_))));
}

#[test]
fn get_bytes_rejects_bad_index() {
    let b = Buffer::zeros(DType::F64, &[2, 2]).unwrap();
    assert!(matches!(b.get_bytes(&[2, 0]), Err(MohuError::IndexOutOfBounds { index: 2, axis: 0, size: 2 })));
    assert!(matches!(b.get_bytes(&[0, 0, 0]), Err(MohuError::TooManyIndices { .. })));
}

#[test]
fn set_bytes_needs_writeable() {
    let b = Buffer::zeros(DType::F64, &[2, 2]).unwrap();
    let mut t = b.transpose();
    assert!(!t.is_writeable());
    assert!(matches!(t.set_bytes(&[0, 0], &1.0_f64.to_ne_bytes()), Err(MohuError::ReadOnly)));
}

#[test]
fn clone_is_not_writeable() {
    let b = f64_buffer(&[1.0, 2.0]);
    let c = b.clone();
    assert!(b.is_writeable());
    assert!(!c.is_writeable());
    assert_eq!(c.to_bytes().unwrap(), b.to_bytes().unwrap());
}

#[test]
fn reshape_rejects_size_change() {
    let b = f64_buffer(&[1.0, 2.0, 3.0, 4.0]);
    assert!(b.reshape(&[3]).is_err());
    assert_eq!(b.reshape(&[2, 2]).unwrap().shape(), &[2, 2]);
}

#[test]
fn expand_dims_and_squeeze() {
    let b = f64_buffer(&[1.0, 2.0, 3.0]);
    let e = b.expand_dims(0).unwrap();
    assert_eq!(e.shape(), &[1, 3]);
    let s = e.squeeze();
    assert_eq!(s.shape(), &[3]);
    assert_eq!(get_f64(&s, &[2]), 3.0);
}

#[test]
fn permute_rejects_repeated_axis() {
    let b = Buffer::zeros(DType::F64, &[2, 3]).unwrap();
    assert!(b.permute(&[0, 0]).is_err());
}

#[test]
fn flip_reverses_an_axis() {
    let b = f64_buffer(&[0.0, 1.0, 2.0, 3.0, 4.0, 5.0]).reshape(&[2, 3]).unwrap();
    let f = b.flip(1).unwrap();
    assert_eq!(as_f64(&f.to_bytes().unwrap()), vec![2.0, 1.0, 0.0, 5.0, 4.0, 3.0]);
    let g = b.flip(0).unwrap();
    assert_eq!(as_f64(&g.to_bytes().unwrap()), vec![3.0, 4.0, 5.0, 0.0, 1.0, 2.0]);
    assert!(matches!(b.flip(2), Err(MohuError::Internal(_))));
}

#[test]
fn diagonal_views() {
    let b = f64_buffer(&(0..9).map(|x| x as f64).collect::<Vec<_>>()).reshape(&[3, 3]).unwrap();
    assert_eq!(as_f64(&b.diagonal(0).unwrap().to_bytes().unwrap()), vec![0.0, 4.0, 8.0]);
    assert_eq!(as_f64(&b.diagonal(1).unwrap().to_bytes().unwrap()), vec![1.0, 5.0]);
    assert_eq!(as_f64(&b.diagonal(-1).unwrap().to_bytes().unwrap()), vec![3.0, 7.0]);
    assert!(matches!(f64_buffer(&[1.0]).diagonal(0), Err(MohuError::Internal(_))));
}

#[test]
fn eye_places_ones_on_a_diagonal() {
    let e = Buffer::eye(3, 4, 1, DType::F64).unwrap();
    assert_eq!(e.shape(), &[3, 4]);
    assert_eq!(
        as_f64(&e.to_bytes().unwrap()),
        vec![0.0, 1.0, 0.0, 0.0, 0.0, 0.0, 1.0, 0.0, 0.0, 0.0, 0.0, 1.0]
    );
    let s = Buffer::eye_with_byte_order(2, 2, -1, DType::U16, false).unwrap();
    assert_eq!(s.to_bytes().unwrap(), vec![0, 0, 0, 0, 0, 1, 0, 0]);
}

#[test]
fn diag_builds_a_square_matrix() {
    let v = f64_buffer(&[1.0, 2.0]);
    let d = Buffer::diag(&v, 1).unwrap();
    assert_eq!(d.shape(), &[3, 3]);
    assert_eq!(as_f64(&d.to_bytes().unwrap()), vec![0.0, 1.0, 0.0, 0.0, 0.0, 2.0, 0.0, 0.0, 0.0]);
    let m = Buffer::diag(&v, -1).unwrap();
    assert_eq!(as_f64(&m.to_bytes().unwrap()), vec![0.0, 0.0, 0.0, 1.0, 0.0, 0.0, 0.0, 2.0, 0.0]);
    let two_d = v.reshape(&[1, 2]).unwrap();
    assert!(matches!(Buffer::diag(&two_d, 0), Err(MohuError::Internal(_))));
}

#[test]
fn tril_and_triu_zero_a_triangle() {
    let b = f64_buffer(&(1..=9).map(|x| x as f64).collect::<Vec<_>>()).reshape(&[3, 3]).unwrap();
    assert_eq!(
        as_f64(&b.tril(0).unwrap().to_bytes().unwrap()),
        vec![1.0, 0.0, 0.0, 4.0, 5.0, 0.0, 7.0, 8.0, 9.0]
    );
    assert_eq!(
        as_f64(&b.triu(1).unwrap().to_bytes().unwrap()),
        vec![0.0, 2.0, 3.0, 0.0, 0.0, 6.0, 0.0, 0.0, 0.0]
    );
    assert!(b.tril(0).unwrap().is_writeable());
    assert!(matches!(f64_buffer(&[1.0]).triu(0), Err(MohuError::Internal(_))));
}

#[test]
fn count_any_all() {
    let b = f64_buffer(&[0.0, -0.0, 2.5, 0.0]);
    assert_eq!(b.count_nonzero().unwrap(), 1);
    assert!(b.any().unwrap());
    assert!(!b.all().unwrap());
    let z = Buffer::zeros(DType::I32, &[4]).unwrap();
    assert!(!z.any().unwrap());
    assert_eq!(z.count_nonzero().unwrap(), 0);
    let o = Buffer::ones(DType::I32, &[4]).unwrap();
    assert!(o.all().unwrap());
    assert!(Buffer::zeros(DType::I32, &[0]).unwrap().all().unwrap());
}

#[test]
fn fill_one_and_copy_from() {
    let mut b = Buffer::zeros(DType::I32, &[3]).unwrap();
    fill_one(&mut b).unwrap();
    assert_eq!(as_i32(&b.to_bytes().unwrap()), vec![1, 1, 1]);
    let src = Buffer::from_bytes(DType::I32, &[3], i32_bytes(&[7, 8, 9])).unwrap();
    b.copy_from(&src).unwrap();
    assert_eq!(as_i32(&b.to_bytes().unwrap()), vec![7, 8, 9]);
    let other = Buffer::zeros(DType::F64, &[3]).unwrap();
    assert!(matches!(b.copy_from(&other), Err(MohuError::DTypeMismatch { .. })));
}

#[test]
fn to_contiguous_of_a_transpose() {
    let b = f64_buffer(&[0.0, 1.0, 2.0, 3.0, 4.0, 5.0]).reshape(&[2, 3]).unwrap();
    let c = b.transpose().to_contiguous().unwrap();
    assert!(c.is_c_contiguous());
    assert_eq!(as_f64(&c.to_bytes().unwrap()), vec![0.0, 3.0, 1.0, 4.0, 2.0, 5.0]);
}

fn i64_buffer(values: &[i64]) -> Buffer {
    let bytes: Vec<u8> = values.iter().flat_map(|v| v.to_ne_bytes()).collect();
    Buffer::from_bytes(DType::I64, &[values.len()], bytes).unwrap()
}

#[test]
fn gather_selects_by_index() {
    let src = f64_buffer(&[10.0, 20.0, 30.0, 40.0]);
    let idx = i64_buffer(&[3, 0, -1, 1]);
    let mut dst = Buffer::zeros(DType::F64, &[4]).unwrap();
    gather(&src, &idx, &mut dst).unwrap();
    assert_eq!(as_f64(&dst.to_bytes().unwrap()), vec![40.0, 10.0, 40.0, 20.0]);
}

#[test]
fn gather_holds_far_indices_to_the_last_element() {
    let src = f64_buffer(&[1.0, 2.0, 3.0]);
    let idx = i64_buffer(&[7, -9]);
    let mut dst = Buffer::zeros(DType::F64, &[2]).unwrap();
    gather_with_byte_order(&src, &idx, &mut dst, cfg_little()).unwrap();
    assert_eq!(as_f64(&dst.to_bytes().unwrap()), vec![3.0, 3.0]);
}

fn cfg_little() -> bool {
    1u16.to_ne_bytes()[0] == 1
}

#[test]
fn gather_checks_its_arguments() {
    let src = f64_buffer(&[1.0, 2.0]);
    let bad_idx = Buffer::zeros(DType::I32, &[2]).unwrap();
    let mut dst = Buffer::zeros(DType::F64, &[2]).unwrap();
    assert!(matches!(gather(&src, &bad_idx, &mut dst), Err(MohuError::DTypeMismatch { .. })));
    let idx = i64_buffer(&[0]);
    assert!(matches!(gather(&src, &idx, &mut dst), Err(MohuError::ShapeMismatch { .. })));
    let mut ro = dst.transpose();
    let idx2 = i64_buffer(&[0, 1]);
    assert!(matches!(gather(&src, &idx2, &mut ro), Err(MohuError::ReadOnly)));
    let m = Buffer::zeros(DType::F64, &[2, 2]).unwrap().transpose();
    let mut d4 = Buffer::zeros(DType::F64, &[4]).unwrap();
    let idx4 = i64_buffer(&[0, 1, 2, 3]);
    assert!(matches!(gather(&m, &idx4, &mut d4), Err(MohuError::NonContiguous)));
}

#[test]
fn scatter_writes_by_index_last_wins() {
    let src = f64_buffer(&[1.0, 2.0, 3.0]);
    let idx = i64_buffer(&[2, -1, 0]);
    let mut dst = f64_buffer(&[9.0, 9.0, 9.0, 9.0]);
    scatter(&mut dst, &idx, &src).unwrap();
    assert_eq!(as_f64(&dst.to_bytes().unwrap()), vec![3.0, 9.0, 1.0, 2.0]);
}

#[test]
fn scatter_skips_indices_outside() {
    let src = f64_buffer(&[5.0, 6.0]);
    let idx = i64_buffer(&[10, -10]);
    let mut dst = f64_buffer(&[0.0, 0.0]);
    scatter_with_byte_order(&mut dst, &idx, &src, cfg_little()).unwrap();
    assert_eq!(as_f64(&dst.to_bytes().unwrap()), vec![0.0, 0.0]);
    let short = i64_buffer(&[0]);
    assert!(matches!(scatter(&mut dst, &short, &src), Err(MohuError::ShapeMismatch { .. })));
}

#[test]
fn flip_axis_copy_reverses_into_dst() {
    let src = f64_buffer(&[0.0, 1.0, 2.0, 3.0, 4.0, 5.0]).reshape(&[2, 3]).unwrap();
    let mut dst = Buffer::zeros(DType::F64, &[2, 3]).unwrap();
    flip_axis_copy(&src, &mut dst, 1).unwrap();
    assert_eq!(as_f64(&dst.to_bytes().unwrap()), vec![2.0, 1.0, 0.0, 5.0, 4.0, 3.0]);
    flip_axis_copy(&src, &mut dst, 0).unwrap();
    assert_eq!(as_f64(&dst.to_bytes().unwrap()), vec![3.0, 4.0, 5.0, 0.0, 1.0, 2.0]);
    assert!(matches!(flip_axis_copy(&src, &mut dst, 2), Err(MohuError::Internal(_))));
    let mut wrong = Buffer::zeros(DType::F64, &[3, 2]).unwrap();
    assert!(matches!(flip_axis_copy(&src, &mut wrong, 0), Err(MohuError::ShapeMismatch { .. })));
    let mut t = Buffer::zeros(DType::F64, &[3, 2]).unwrap().transpose();
    assert!(matches!(flip_axis_copy(&src, &mut t, 0), Err(MohuError::NonContiguous)));
}

#[test]
fn argmin_argmax_of_integers() {
    let b = Buffer::from_bytes(DType::I32, &[6], i32_bytes(&[4, -7, 9, -7, 9, 0])).unwrap();
    assert_eq!(b.argmin_flat().unwrap(), 1);
    assert_eq!(b.argmax_flat().unwrap(), 2);
    let u = Buffer::from_bytes(DType::U16, &[3], vec![0, 1, 255, 255, 0, 2]).unwrap();
    assert_eq!(argmax_flat_with_byte_order(&u, true).unwrap(), 1);
    assert_eq!(argmax_flat_with_byte_order(&u, false).unwrap(), 1);
    assert_eq!(argmin_flat_with_byte_order(&u, false).unwrap(), 0);
    assert_eq!(argmin_flat_with_byte_order(&u, true).unwrap(), 0);
    let t = Buffer::from_bytes(DType::Bool, &[3], vec![1, 1, 0]).unwrap();
    assert_eq!(t.argmax_flat().unwrap(), 0);
    assert_eq!(t.argmin_flat().unwrap(), 2);
    let w = Buffer::from_bytes(DType::U16, &[2], vec![0, 2, 1, 0]).unwrap();
    assert_eq!(argmin_flat_with_byte_order(&w, true).unwrap(), 1);
    assert_eq!(argmin_flat_with_byte_order(&w, false).unwrap(), 0);
}

#[test]
fn argmin_argmax_of_floats() {
    let b = f64_buffer(&[0.5, -2.25, 3.0, -0.0, f64::INFINITY]);
    assert_eq!(b.argmin_flat().unwrap(), 1);
    assert_eq!(b.argmax_flat().unwrap(), 4);
    let z = f64_buffer(&[0.0, -0.0]);
    assert_eq!(z.argmin_flat().unwrap(), 0);
    assert_eq!(z.argmax_flat().unwrap(), 0);
    let n = f64_buffer(&[1.0, f64::NAN, 2.0]);
    assert_eq!(n.argmin_flat().unwrap(), 2);
    let h = Buffer::from_bytes(DType::F16, &[3], vec![0x00, 0x3C, 0x00, 0xC0, 0x00, 0x40]).unwrap();
    assert_eq!(argmin_flat_with_byte_order(&h, true).unwrap(), 1);
    assert_eq!(argmax_flat_with_byte_order(&h, true).unwrap(), 2);
}

#[test]
fn argmin_argmax_edge_cases() {
    let b = Buffer::from_bytes(DType::Bool, &[4], vec![1, 0, 1, 0]).unwrap();
    assert_eq!(b.argmin_flat().unwrap(), 1);
    assert_eq!(b.argmax_flat().unwrap(), 0);
    let e = Buffer::zeros(DType::F32, &[0]).unwrap();
    assert_eq!(e.argmin_flat().unwrap(), 0);
    let c = Buffer::zeros(DType::C64, &[2]).unwrap();
    assert!(matches!(c.argmax_flat(), Err(MohuError::UnsupportedDType { .. })));
    let t = Buffer::from_bytes(DType::I32, &[2, 2], i32_bytes(&[5, 1, 3, 0])).unwrap().transpose();
    assert_eq!(t.argmin_flat().unwrap(), 3);
    assert_eq!(t.argmax_flat().unwrap(), 0);
}

#[test]
fn fill_diagonal_writes_the_main_diagonal() {
    let mut b = Buffer::zeros(DType::F64, &[2, 3]).unwrap();
    b.fill_diagonal(&7.5_f64.to_ne_bytes()).unwrap();
    assert_eq!(as_f64(&b.to_bytes().unwrap()), vec![7.5, 0.0, 0.0, 0.0, 7.5, 0.0]);
    assert!(matches!(b.fill_diagonal(&[1, 2]), Err(MohuError::Internal(_))));
    let mut v = Buffer::zeros(DType::F64, &[3]).unwrap();
    assert!(matches!(v.fill_diagonal(&1.0_f64.to_ne_bytes()), Err(MohuError::Internal(_))));
    let mut t = b.transpose();
    assert!(matches!(t.fill_diagonal(&1.0_f64.to_ne_bytes()), Err(MohuError::ReadOnly)));
}

#[test]
fn share_is_shallow_clone() {
    let buf = f64_buffer(&[1.0, 2.0, 3.0]);
    let shared = buf.share();
    assert_eq!(get_f64(&shared, &[0]), 1.0_f64);
    assert!(!shared.is_writeable());
    assert!(buf.is_writeable());
}

#[test]
fn flip_twice_restores_the_view() {
    let b = f64_buffer(&[0.0, 1.0, 2.0, 3.0, 4.0, 5.0]).reshape(&[2, 3]).unwrap();
    let ff = b.flip(1).unwrap().flip(1).unwrap();
    assert_eq!(ff.strides(), b.strides());
    assert_eq!(ff.offset(), b.offset());
    assert_eq!(ff.to_bytes().unwrap(), b.to_bytes().unwrap());
}

#[test]
fn read_after_write_keeps_other_elements() {
    let mut b = Buffer::zeros(DType::I32, &[2, 2]).unwrap();
    b.set_bytes(&[0, 1], &5i32.to_ne_bytes()).unwrap();
    b.set_bytes(&[1, 0], &6i32.to_ne_bytes()).unwrap();
    assert_eq!(get_i32(&b, &[0, 1]), 5);
    assert_eq!(get_i32(&b, &[1, 0]), 6);
    assert_eq!(get_i32(&b, &[0, 0]), 0);
    assert_eq!(get_i32(&b, &[1, 1]), 0);
}

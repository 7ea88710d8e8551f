use mohu::buffer::Buffer;
use mohu::compat::ByteOrder;
use mohu::dtype::DType;
use mohu::error::MohuError;
use mohu::ops::{
    add_scalar_inplace, clip, div_scalar_inplace, fill_sequential, mul_scalar_inplace, parallel_inplace, parallel_map,
    parallel_scan, parallel_zip, reduce, sub_scalar_inplace, where_select, where_select_dtype,
};

fn i32_buf(values: &[i32]) -> Buffer {
    let bytes: Vec<u8> = values.iter().flat_map(|v| v.to_ne_bytes()).collect();
    Buffer::from_bytes(DType::I32, &[values.len()], bytes).unwrap()
}

fn i32_values(b: &Buffer) -> Vec<i32> {
    b.to_bytes().unwrap().chunks(4).map(|c| i32::from_ne_bytes(c.try_into().unwrap())).collect()
}

fn i64_values(b: &Buffer) -> Vec<i64> {
    b.to_bytes().unwrap().chunks(8).map(|c| i64::from_ne_bytes(c.try_into().unwrap())).collect()
}

#[test]
fn host_byte_order_follows_endianness() {
    assert_eq!(ByteOrder::of_host(true), ByteOrder::Little);
    assert_eq!(ByteOrder::of_host(false), ByteOrder::Big);
    assert_eq!(ByteOrder::host(), ByteOrder::of_host(u16::from_ne_bytes([1, 0]) == 1));
}

#[test]
fn where_select_picks_by_mask() {
    let mask = Buffer::from_bytes(DType::U8, &[4], vec![1, 0, 7, 0]).unwrap();
    let a = i32_buf(&[1, 2, 3, 4]);
    let b = i32_buf(&[-1, -2, -3, -4]);
    let mut dst = Buffer::zeros(DType::I32, &[4]).unwrap();
    where_select::<i32>(&mask, &a, &b, &mut dst).unwrap();
    assert_eq!(i32_values(&dst), vec![1, -2, 3, -4]);
}

#[test]
fn where_select_refuses_wrong_mask_and_dtype() {
    let bad_mask = i32_buf(&[1, 0]);
    let a = i32_buf(&[1, 2]);
    let b = i32_buf(&[3, 4]);
    let mut dst = Buffer::zeros(DType::I32, &[2]).unwrap();
    assert!(matches!(
        where_select::<i32>(&bad_mask, &a, &b, &mut dst),
        Err(MohuError::DTypeMismatch { .. })
    ));
    let mask = Buffer::from_bytes(DType::U8, &[2], vec![1, 0]).unwrap();
    assert!(matches!(
        where_select_dtype(DType::I64, &mask, &a, &b, &mut dst),
        Err(MohuError::DTypeMismatch { .. })
    ));
    let mut short = Buffer::zeros(DType::I32, &[3]).unwrap();
    assert!(matches!(
        where_select::<i32>(&mask, &a, &b, &mut short),
        Err(MohuError::ShapeMismatch { .. })
    ));
}

#[test]
fn clip_holds_values_in_range() {
    let src = i32_buf(&[-5, 0, 5, 10, 15]);
    let mut dst = Buffer::zeros(DType::I32, &[5]).unwrap();
    clip::<i32>(&src, &mut dst, 0, 10).unwrap();
    assert_eq!(i32_values(&dst), vec![0, 0, 5, 10, 10]);
}

#[test]
fn clip_refuses_read_only_destination() {
    let src = i32_buf(&[1, 2]);
    let mut dst = Buffer::zeros(DType::I32, &[2]).unwrap().share();
    assert!(matches!(clip::<i32>(&src, &mut dst, 0, 1), Err(MohuError::ReadOnly)));
}

#[test]
fn fill_sequential_writes_arithmetic_sequence() {
    let mut buf = Buffer::zeros(DType::I32, &[5]).unwrap();
    fill_sequential::<i32>(&mut buf, 3, -2).unwrap();
    assert_eq!(i32_values(&buf), vec![3, 1, -1, -3, -5]);
    let mut other = Buffer::zeros(DType::U8, &[2]).unwrap();
    assert!(matches!(fill_sequential::<i32>(&mut other, 0, 1), Err(MohuError::DTypeMismatch { .. })));
}

#[test]
fn parallel_scan_gives_running_sums() {
    let src = i32_buf(&[1, 2, 3, 4]);
    let mut dst = Buffer::zeros(DType::I32, &[4]).unwrap();
    parallel_scan::<i32, _>(&src, &mut dst, 0, |a: i32, b: i32| a.wrapping_add(b)).unwrap();
    assert_eq!(i32_values(&dst), vec![1, 3, 6, 10]);
}

#[test]
fn parallel_map_widens_elements() {
    let src = i32_buf(&[1, -2, 3]);
    let mut dst = Buffer::zeros(DType::I64, &[3]).unwrap();
    parallel_map::<i32, i64, _>(&src, &mut dst, |x: i32| x as i64 * 1_000_000_000_000).unwrap();
    assert_eq!(i64_values(&dst), vec![1_000_000_000_000, -2_000_000_000_000, 3_000_000_000_000]);
}

#[test]
fn parallel_zip_combines_pairs() {
    let a = i32_buf(&[1, 2, 3]);
    let b = i32_buf(&[10, 20, 30]);
    let mut dst = Buffer::zeros(DType::I32, &[3]).unwrap();
    parallel_zip::<i32, i32, _>(&a, &b, &mut dst, |x: i32, y: i32| x.wrapping_mul(y)).unwrap();
    assert_eq!(i32_values(&dst), vec![10, 40, 90]);
    let c = i32_buf(&[1, 2]);
    assert!(matches!(
        parallel_zip::<i32, i32, _>(&a, &c, &mut dst, |x: i32, y: i32| x.wrapping_add(y)),
        Err(MohuError::ShapeMismatch { .. })
    ));
}

#[test]
fn reduce_folds_mapped_elements() {
    let buf = i32_buf(&[1, 2, 3, 4]);
    let total = reduce::<i32, i64, _, _>(&buf, 0i64, |x: i32| x as i64 * x as i64, |p: i64, q: i64| {
        p.wrapping_add(q)
    })
    .unwrap();
    assert_eq!(total, 30);
    let empty = Buffer::zeros(DType::I32, &[0]).unwrap();
    assert_eq!(reduce::<i32, i64, _, _>(&empty, 7i64, |x: i32| x as i64, |p: i64, q: i64| p.wrapping_add(q)).unwrap(), 7);
}

#[test]
fn parallel_inplace_replaces_elements() {
    let mut buf = i32_buf(&[1, 2, 3]);
    parallel_inplace::<i32, _>(&mut buf, |x: i32| x.wrapping_neg()).unwrap();
    assert_eq!(i32_values(&buf), vec![-1, -2, -3]);
}

#[test]
fn scalar_arithmetic_in_place() {
    let mut buf = i32_buf(&[10, -7, 4]);
    add_scalar_inplace::<i32>(&mut buf, 5).unwrap();
    assert_eq!(i32_values(&buf), vec![15, -2, 9]);
    sub_scalar_inplace::<i32>(&mut buf, 1).unwrap();
    assert_eq!(i32_values(&buf), vec![14, -3, 8]);
    mul_scalar_inplace::<i32>(&mut buf, -2).unwrap();
    assert_eq!(i32_values(&buf), vec![-28, 6, -16]);
    div_scalar_inplace::<i32>(&mut buf, 3).unwrap();
    assert_eq!(i32_values(&buf), vec![-9, 2, -5]);
}

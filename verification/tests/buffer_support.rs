use mohu::alloc_stats::{record_alloc, record_free, AllocStats, Strategy};
use mohu::buffer::{flat_to_indices, BufferFlags, RawDLDataType};
use mohu::dlpack::{DLDataType, DLDataTypeCode};
use mohu::dtype::DType;
use mohu::pool::size_class;
use mohu::text::{push_decimal, push_decimal_i64, trim_str};

#[test]
fn flags_insert_remove_contains() {
    let f = BufferFlags::empty().insert(BufferFlags::writeable()).insert(BufferFlags::c_contiguous());
    assert!(f.contains(BufferFlags::writeable()));
    assert!(f.contains(BufferFlags::c_contiguous()));
    assert!(!f.contains(BufferFlags::f_contiguous()));
    assert!(f.contains(BufferFlags::empty()));
    let g = f.remove(BufferFlags::writeable());
    assert!(!g.contains(BufferFlags::writeable()));
    assert!(g.contains(BufferFlags::c_contiguous()));
    assert_eq!(f.bits(), 5);
    assert_eq!(BufferFlags::aligned().bits(), 16);
    assert_eq!(BufferFlags::owns_data().bits(), 2);
}

#[test]
fn raw_dl_data_type_from() {
    let raw = RawDLDataType::from(DType::C128.to_dlpack());
    assert_eq!(raw, RawDLDataType { code: 5, bits: 128, lanes: 1 });
    let raw2 = RawDLDataType::from(DLDataType { code: DLDataTypeCode::UInt, bits: 8, lanes: 4 });
    assert_eq!((raw2.code, raw2.bits, raw2.lanes), (1, 8, 4));
}

fn zero_stats() -> AllocStats {
    AllocStats { live_bytes: 0, peak_bytes: 0, alloc_count: 0, free_count: 0, heap_live_bytes: 0, mmap_live_bytes: 0 }
}

#[test]
fn alloc_stats_bookkeeping() {
    let mut s = zero_stats();
    record_alloc(&mut s, 100, Strategy::Heap);
    record_alloc(&mut s, 4096, Strategy::Mmap);
    assert_eq!(s.live_bytes, 4196);
    assert_eq!(s.peak_bytes, 4196);
    assert_eq!(s.heap_live_bytes, 100);
    assert_eq!(s.mmap_live_bytes, 4096);
    record_free(&mut s, 4096, Strategy::Mmap);
    assert_eq!(s.live_bytes, 100);
    assert_eq!(s.peak_bytes, 4196);
    assert_eq!(s.mmap_live_bytes, 0);
    assert_eq!(s.alloc_count, 2);
    assert_eq!(s.free_count, 1);
    assert_eq!(s.live_count(), 1);
    record_alloc(&mut s, 0, Strategy::ZeroSize);
    assert_eq!(s.live_count(), 2);
    assert_eq!(s.heap_live_bytes, 100);
}

#[test]
fn size_classes() {
    assert_eq!(size_class(0), 1);
    assert_eq!(size_class(1), 1);
    assert_eq!(size_class(3), 4);
    assert_eq!(size_class(4096), 4096);
    assert_eq!(size_class(4097), 8192);
    assert_eq!(size_class(usize::MAX / 2 + 1), usize::MAX / 2 + 1);
}

#[test]
fn flat_positions() {
    assert_eq!(flat_to_indices(5, &[2, 3]), vec![1, 2]);
    assert_eq!(flat_to_indices(0, &[2, 3]), vec![0, 0]);
    // The first digit wraps as well.
    assert_eq!(flat_to_indices(7, &[2, 3]), vec![0, 1]);
    assert_eq!(flat_to_indices(9, &[]), Vec::<usize>::new());
}

#[test]
fn decimal_text() {
    let mut s = String::from("n=");
    push_decimal(&mut s, 1234567890123);
    assert_eq!(s, "n=1234567890123");
    let mut t = String::new();
    push_decimal_i64(&mut t, i64::MIN);
    assert_eq!(t, "-9223372036854775808");
    assert_eq!(trim_str("\u{2003} int8\n"), "int8");
}

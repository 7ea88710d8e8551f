use mohu::scalar::{IntScalar, RealScalar, SignedScalar};

#[test]
fn real_scalar_limits_and_order() {
    assert_eq!(<i8 as RealScalar>::min_value(), -128);
    assert_eq!(<u16 as RealScalar>::max_value(), 65535);
    assert_eq!(RealScalar::abs(-5i32), 5);
    assert_eq!(RealScalar::abs(i16::MIN), i16::MIN);
    assert_eq!(RealScalar::abs(7u8), 7);
    assert_eq!(3i64.scalar_max(9), 9);
    assert_eq!(3u32.scalar_min(9), 3);
    assert_eq!(RealScalar::clamp(15i32, 0, 10), 10);
    assert_eq!(RealScalar::clamp(-3i32, 0, 10), 0);
    assert_eq!(RealScalar::clamp(4u64, 0, 10), 4);
}

#[test]
fn int_scalar_arithmetic() {
    assert_eq!(<u8 as IntScalar>::bits(), 8);
    assert_eq!(<i64 as IntScalar>::bits(), 64);
    assert_eq!(IntScalar::overflowing_add(250u8, 10), (4, true));
    assert_eq!(IntScalar::overflowing_add(100i8, 27), (127, false));
    assert_eq!(IntScalar::overflowing_sub(-128i8, 1), (127, true));
    assert_eq!(IntScalar::overflowing_mul(16i8, 16), (0, true));
    assert_eq!(IntScalar::overflowing_mul(-3i16, 7), (-21, false));
    assert_eq!(IntScalar::overflowing_mul(u64::MAX, 2), (u64::MAX - 1, true));
    assert_eq!(IntScalar::overflowing_mul(i64::MIN, -1), (i64::MIN, true));
    assert_eq!(IntScalar::saturating_add(120i8, 10), 127);
    assert_eq!(IntScalar::saturating_sub(3u32, 5), 0);
    assert_eq!(IntScalar::checked_add(u16::MAX, 1), None);
    assert_eq!(IntScalar::checked_sub(5i32, 7), Some(-2));
}

#[test]
fn int_scalar_bits() {
    assert_eq!(IntScalar::count_ones(-1i16), 16);
    assert_eq!(IntScalar::count_ones(0b1011u8), 3);
    assert_eq!(IntScalar::leading_zeros(1u32), 31);
    assert_eq!(IntScalar::leading_zeros(0u64), 64);
    assert_eq!(IntScalar::leading_zeros(-1i8), 0);
    assert_eq!(IntScalar::trailing_zeros(8u16), 3);
    assert_eq!(IntScalar::trailing_zeros(0i32), 32);
    assert_eq!(IntScalar::to_u64_bits(-1i8), u64::MAX);
    assert_eq!(IntScalar::to_u64_bits(300u16), 300);
}

#[test]
fn signed_scalar_ops() {
    assert_eq!(SignedScalar::saturating_abs(i32::MIN), i32::MAX);
    assert_eq!(SignedScalar::saturating_abs(-4i8), 4);
    assert_eq!(SignedScalar::signum(-9i64), -1);
    assert_eq!(SignedScalar::signum(0i16), 0);
    assert_eq!(SignedScalar::signum(5i8), 1);
}

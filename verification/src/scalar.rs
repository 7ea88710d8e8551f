//! Traits of the integer element types: their order and limits, checked,
//! saturating and overflowing arithmetic, and their bits; each stated over
//! the mathematical value of the element.
use vstd::prelude::*;
use crate::sealed::Sealed;
use crate::dtype::{spec_itemsize, DType};

verus! {

/// `2` to the power `e`.
pub open spec fn two_pow(e: nat) -> nat
    decreases e,
{
    if e == 0 {
        1
    } else {
        2 * two_pow((e - 1) as nat)
    }
}

/// `x` wrapped into the `m` consecutive integers from `lo`.
pub open spec fn wrapped(x: int, lo: int, m: int) -> int {
    lo + (x - lo) % m
}

/// `x` held within `[lo, hi]`.
pub open spec fn clamped(x: int, lo: int, hi: int) -> int {
    if x < lo {
        lo
    } else if x > hi {
        hi
    } else {
        x
    }
}

/// The absolute value of `x`.
pub open spec fn abs_int(x: int) -> int {
    if x < 0 {
        -x
    } else {
        x
    }
}

/// The sign of `x`: -1, 0 or 1.
pub open spec fn sign_of(x: int) -> int {
    if x > 0 {
        1
    } else if x < 0 {
        -1
    } else {
        0
    }
}

/// The two's-complement bit pattern of `x` modulo `m`.
pub open spec fn bit_pattern(x: int, m: int) -> int {
    if x >= 0 {
        x
    } else {
        x + m
    }
}

/// The number of set bits among the low `w` bits of `u`.
pub open spec fn ones_in(u: nat, w: nat) -> nat
    decreases w,
{
    if w == 0 {
        0
    } else {
        u % 2 + ones_in(u / 2, (w - 1) as nat)
    }
}

/// The number of zero bits below the lowest set bit of `u`, at most `w`.
pub open spec fn trailing_zeros_in(u: nat, w: nat) -> nat
    decreases w,
{
    if w == 0 {
        0
    } else if u % 2 == 1 {
        0
    } else {
        1 + trailing_zeros_in(u / 2, (w - 1) as nat)
    }
}

/// The number of zero bits above the highest set bit of the `w`-bit `u`.
pub open spec fn leading_zeros_in(u: nat, w: nat) -> nat
    decreases w,
{
    if w == 0 {
        0
    } else if u >= two_pow((w - 1) as nat) {
        0
    } else {
        1 + leading_zeros_in(u, (w - 1) as nat)
    }
}

/// Element types with a total order and finite limits: the integers.
pub trait RealScalar: Sealed + Copy + Sized {
    /// The mathematical value.
    spec fn value(self) -> int;

    /// The least value of the type.
    spec fn lowest() -> int;

    /// The greatest value of the type.
    spec fn highest() -> int;

    /// The dtype that tags elements of the type.
    spec fn tag() -> DType;

    /// The dtype that tags elements of the type.
    fn dtype() -> (d: DType)
        ensures
            d == Self::tag(),
    ;

    /// The value, widened to `i128`.
    fn to_i128(self) -> (r: i128)
        ensures
            r == self.value(),
    ;

    /// The element of value `v`.
    fn from_i128(v: i128) -> (r: Self)
        requires
            Self::lowest() <= v <= Self::highest(),
        ensures
            r.value() == v,
    ;

    /// The least value of the type.
    fn min_value() -> (r: Self)
        ensures
            r.value() == Self::lowest(),
    ;

    /// The greatest value of the type.
    fn max_value() -> (r: Self)
        ensures
            r.value() == Self::highest(),
    ;

    /// The absolute value, wrapping around for the least value of a signed
    /// type; the value itself for an unsigned one.
    fn abs(self) -> (r: Self)
        ensures
            r.value() == wrapped(abs_int(self.value()), Self::lowest(), Self::highest() - Self::lowest() + 1),
    ;

    /// The greater of the two (`self` when equal).
    fn scalar_max(self, other: Self) -> (r: Self)
        ensures
            r == (if self.value() >= other.value() {
                self
            } else {
                other
            }),
    ;

    /// The lesser of the two (`self` when equal).
    fn scalar_min(self, other: Self) -> (r: Self)
        ensures
            r == (if self.value() <= other.value() {
                self
            } else {
                other
            }),
    ;

    /// `self` raised to at least `lo`, then lowered to at most `hi`.
    fn clamp(self, lo: Self, hi: Self) -> (r: Self)
        ensures
            ({
                let m = if self.value() >= lo.value() {
                    self
                } else {
                    lo
                };
                r == (if m.value() <= hi.value() {
                    m
                } else {
                    hi
                })
            }),
    ;
}

/// Integer element types: checked, saturating and overflowing arithmetic
/// and bit counts.
pub trait IntScalar: RealScalar {
    /// The number of bits.
    spec fn width() -> nat;

    /// The limits lie within those of 64-bit integers, 0 among them, and
    /// every value lies within the limits.
    proof fn lemma_limits()
        ensures
            i64::MIN <= Self::lowest() <= 0 <= Self::highest() <= u64::MAX,
            forall|x: Self| Self::lowest() <= #[trigger] x.value() <= Self::highest(),
    ;

    /// The value whose two's-complement pattern is the low `width` bits of
    /// `u`.
    fn from_pattern(u: u64) -> (r: Self)
        ensures
            bit_pattern(r.value(), Self::highest() - Self::lowest() + 1) == u as int % (Self::highest()
                - Self::lowest() + 1),
    ;

    /// The number of bits.
    fn bits() -> (r: u32)
        ensures
            r == Self::width(),
            r == 8 * spec_itemsize(Self::tag()),
            r <= 64,
    ;

    /// The sum wrapped into the type, and whether it had to be wrapped.
    fn overflowing_add(self, rhs: Self) -> (r: (Self, bool))
        ensures
            r.0.value() == wrapped(self.value() + rhs.value(), Self::lowest(), Self::highest() - Self::lowest() + 1),
            r.1 == !(Self::lowest() <= self.value() + rhs.value() <= Self::highest()),
    ;

    /// The difference wrapped into the type, and whether it had to be
    /// wrapped.
    fn overflowing_sub(self, rhs: Self) -> (r: (Self, bool))
        ensures
            r.0.value() == wrapped(self.value() - rhs.value(), Self::lowest(), Self::highest() - Self::lowest() + 1),
            r.1 == !(Self::lowest() <= self.value() - rhs.value() <= Self::highest()),
    ;

    /// The product wrapped into the type, and whether it had to be wrapped.
    fn overflowing_mul(self, rhs: Self) -> (r: (Self, bool))
        ensures
            r.0.value() == wrapped(self.value() * rhs.value(), Self::lowest(), Self::highest() - Self::lowest() + 1),
            r.1 == !(Self::lowest() <= self.value() * rhs.value() <= Self::highest()),
    ;

    /// The sum held within the limits of the type.
    fn saturating_add(self, rhs: Self) -> (r: Self)
        ensures
            r.value() == clamped(self.value() + rhs.value(), Self::lowest(), Self::highest()),
    ;

    /// The difference held within the limits of the type.
    fn saturating_sub(self, rhs: Self) -> (r: Self)
        ensures
            r.value() == clamped(self.value() - rhs.value(), Self::lowest(), Self::highest()),
    ;

    /// The sum, if the type holds it.
    fn checked_add(self, rhs: Self) -> (r: Option<Self>)
        ensures
            Self::lowest() <= self.value() + rhs.value() <= Self::highest() ==> (r matches Some(v) && v.value()
                == self.value() + rhs.value()),
            !(Self::lowest() <= self.value() + rhs.value() <= Self::highest()) ==> r is None,
    ;

    /// The difference, if the type holds it.
    fn checked_sub(self, rhs: Self) -> (r: Option<Self>)
        ensures
            Self::lowest() <= self.value() - rhs.value() <= Self::highest() ==> (r matches Some(v) && v.value()
                == self.value() - rhs.value()),
            !(Self::lowest() <= self.value() - rhs.value() <= Self::highest()) ==> r is None,
    ;

    /// The number of set bits of the two's-complement pattern.
    fn count_ones(self) -> (r: u32)
        ensures
            r == ones_in(bit_pattern(self.value(), Self::highest() - Self::lowest() + 1) as nat, Self::width()),
    ;

    /// The number of zero bits above the highest set bit of the pattern.
    fn leading_zeros(self) -> (r: u32)
        ensures
            r == leading_zeros_in(bit_pattern(self.value(), Self::highest() - Self::lowest() + 1) as nat, Self::width()),
    ;

    /// The number of zero bits below the lowest set bit of the pattern.
    fn trailing_zeros(self) -> (r: u32)
        ensures
            r == trailing_zeros_in(bit_pattern(self.value(), Self::highest() - Self::lowest() + 1) as nat, Self::width()),
    ;

    /// The value as a `u64`: the value itself when not negative, else
    /// sign-extended (`2^64` added).
    fn to_u64_bits(self) -> (r: u64)
        ensures
            r == bit_pattern(self.value(), 0x1_0000_0000_0000_0000),
    ;
}

/// Signed integer element types.
pub trait SignedScalar: IntScalar {
    /// The absolute value, held to the greatest value of the type.
    fn saturating_abs(self) -> (r: Self)
        ensures
            r.value() == clamped(abs_int(self.value()), Self::lowest(), Self::highest()),
    ;

    /// The sign: -1, 0 or 1.
    fn signum(self) -> (r: Self)
        ensures
            r.value() == sign_of(self.value()),
    ;
}

/// Unsigned integer element types.
pub trait UnsignedScalar: IntScalar {}

/// The set bits among the low `w` bits of `u`.
fn count_ones_of(u: u64, w: u32) -> (r: u32)
    requires
        w <= 64,
    ensures
        r == ones_in(u as nat, w as nat),
{
    let mut v = u;
    let mut c: u32 = 0;
    let mut k: u32 = 0;
    while k < w
        invariant
            k <= w <= 64,
            c <= k,
            c + ones_in(v as nat, (w - k) as nat) == ones_in(u as nat, w as nat),
        decreases w - k,
    {
        c = c + (v % 2) as u32;
        v = v / 2;
        k = k + 1;
    }
    c
}

/// The zero bits below the lowest set bit of `u`, at most `w`.
fn trailing_zeros_of(u: u64, w: u32) -> (r: u32)
    requires
        w <= 64,
    ensures
        r == trailing_zeros_in(u as nat, w as nat),
{
    let mut v = u;
    let mut k: u32 = 0;
    while k < w && v % 2 == 0
        invariant
            k <= w <= 64,
            k + trailing_zeros_in(v as nat, (w - k) as nat) == trailing_zeros_in(u as nat, w as nat),
        decreases w - k,
    {
        v = v / 2;
        k = k + 1;
    }
    k
}

/// The zero bits above the highest set bit of the `w`-bit `u`.
fn leading_zeros_of(u: u64, w: u32) -> (r: u32)
    requires
        1 <= w <= 64,
    ensures
        r == leading_zeros_in(u as nat, w as nat),
{
    let mut top: u64 = 1;
    let mut i: u32 = 1;
    while i < w
        invariant
            1 <= i <= w <= 64,
            top == two_pow((i - 1) as nat),
            top <= 0x8000_0000_0000_0000,
        decreases w - i,
    {
        proof {
            assert(two_pow(i as nat) == 2 * two_pow((i - 1) as nat));
            lemma_two_pow_le((i - 1) as nat, 62);
            assert(two_pow(62) == 0x4000_0000_0000_0000) by {
                reveal_with_fuel(two_pow, 63);
            }
        }
        top = top * 2;
        i = i + 1;
    }
    let mut k: u32 = w;
    let mut n: u32 = 0;
    while k > 0 && u < top
        invariant
            k <= w <= 64,
            n == w - k,
            k > 0 ==> top == two_pow((k - 1) as nat),
            n + leading_zeros_in(u as nat, k as nat) == leading_zeros_in(u as nat, w as nat),
        decreases k,
    {
        k = k - 1;
        n = n + 1;
        if k > 0 {
            proof {
                assert(two_pow(k as nat) == 2 * two_pow((k - 1) as nat));
            }
            top = top / 2;
        }
    }
    n
}

proof fn lemma_two_pow_le(i: nat, j: nat)
    requires
        i <= j,
    ensures
        two_pow(i) <= two_pow(j),
    decreases j - i,
{
    if i < j {
        lemma_two_pow_le(i, (j - 1) as nat);
    }
}

/// `x` already lies `k` turns of `m` above the range from `lo`.
proof fn lemma_wrap_once(x: int, lo: int, m: int, k: int)
    requires
        m > 0,
        0 <= x - lo - k * m < m,
    ensures
        wrapped(x, lo, m) == x - k * m,
{
    vstd::arithmetic::div_mod::lemma_fundamental_div_mod_converse(x - lo, m, k, x - lo - k * m);
}

/// `lo + (x - lo) mod m`, computed without a signed remainder.
fn wrap_into(x: i128, lo: i128, m: i128) -> (r: i128)
    requires
        0 < m <= 0x1_0000_0000_0000_0000,
        -0x1_0000_0000_0000_0000 <= lo <= 0,
        -0x4000_0000_0000_0000_0000_0000_0000_0000 <= x <= 0x4000_0000_0000_0000_0000_0000_0000_0000,
    ensures
        r == wrapped(x as int, lo as int, m as int),
{
    let q = x - lo;
    if q >= 0 {
        let t = (q as u128) % (m as u128);
        lo + t as i128
    } else {
        let t = ((-q) as u128) % (m as u128);
        proof {
            let a = (-q) as int / m as int;
            vstd::arithmetic::div_mod::lemma_fundamental_div_mod(-q as int, m as int);
            assert((-a) * (m as int) == -(m as int * a)) by (nonlinear_arith);
            assert((-a - 1) * (m as int) == -(m as int * a) - m) by (nonlinear_arith);
            if t == 0 {
                vstd::arithmetic::div_mod::lemma_fundamental_div_mod_converse(q as int, m as int, -a, 0);
            } else {
                vstd::arithmetic::div_mod::lemma_fundamental_div_mod_converse(
                    q as int,
                    m as int,
                    -a - 1,
                    m as int - t as int,
                );
            }
        }
        if t == 0 {
            lo
        } else {
            lo + (m - t as i128)
        }
    }
}

impl Sealed for i8 {}

impl RealScalar for i8 {
    open spec fn value(self) -> int {
        self as int
    }

    open spec fn lowest() -> int {
        i8::MIN as int
    }

    open spec fn highest() -> int {
        i8::MAX as int
    }

    open spec fn tag() -> DType {
        DType::I8
    }

    fn dtype() -> (d: DType) {
        DType::I8
    }

    fn to_i128(self) -> (r: i128) {
        self as i128
    }

    fn from_i128(v: i128) -> (r: Self) {
        v as i8
    }

    fn min_value() -> (r: Self) {
        i8::MIN
    }

    fn max_value() -> (r: Self) {
        i8::MAX
    }

    fn abs(self) -> (r: Self) {
        proof {
            if self >= 0 {
                lemma_wrap_once(self as int, i8::MIN as int, 256, 0);
            } else if self == i8::MIN {
                lemma_wrap_once(-(self as int), i8::MIN as int, 256, 1);
            } else {
                lemma_wrap_once(-(self as int), i8::MIN as int, 256, 0);
            }
        }
        if self >= 0 {
            self
        } else if self == i8::MIN {
            self
        } else {
            -self
        }
    }

    fn scalar_max(self, other: Self) -> (r: Self) {
        if self >= other {
            self
        } else {
            other
        }
    }

    fn scalar_min(self, other: Self) -> (r: Self) {
        if self <= other {
            self
        } else {
            other
        }
    }

    fn clamp(self, lo: Self, hi: Self) -> (r: Self) {
        self.scalar_max(lo).scalar_min(hi)
    }
}

impl IntScalar for i8 {
    open spec fn width() -> nat {
        8
    }

    proof fn lemma_limits() {
    }

    fn from_pattern(u: u64) -> (r: Self) {
        let x: u64 = u % 256;
        if x >= 128 {
            (x as i128 - 256) as i8
        } else {
            x as i8
        }
    }

    fn bits() -> (r: u32) {
        8
    }

    fn overflowing_add(self, rhs: Self) -> (r: (Self, bool)) {
        let x = self as i128 + rhs as i128;
        proof {
            if x > i8::MAX as i128 {
                lemma_wrap_once(x as int, i8::MIN as int, 256, 1);
            } else if x < i8::MIN as i128 {
                lemma_wrap_once(x as int, i8::MIN as int, 256, -1);
            } else {
                lemma_wrap_once(x as int, i8::MIN as int, 256, 0);
            }
        }
        if x > i8::MAX as i128 {
            ((x - 256i128) as i8, true)
        } else if x < i8::MIN as i128 {
            ((x + 256i128) as i8, true)
        } else {
            (x as i8, false)
        }
    }

    fn overflowing_sub(self, rhs: Self) -> (r: (Self, bool)) {
        let x = self as i128 - rhs as i128;
        proof {
            if x > i8::MAX as i128 {
                lemma_wrap_once(x as int, i8::MIN as int, 256, 1);
            } else if x < i8::MIN as i128 {
                lemma_wrap_once(x as int, i8::MIN as int, 256, -1);
            } else {
                lemma_wrap_once(x as int, i8::MIN as int, 256, 0);
            }
        }
        if x > i8::MAX as i128 {
            ((x - 256i128) as i8, true)
        } else if x < i8::MIN as i128 {
            ((x + 256i128) as i8, true)
        } else {
            (x as i8, false)
        }
    }

    fn overflowing_mul(self, rhs: Self) -> (r: (Self, bool)) {
        proof {
            assert(-0x4000_0000_0000_0000_0000_0000_0000_0000 <= (self as int) * (rhs as int)
                <= 0x4000_0000_0000_0000_0000_0000_0000_0000) by (nonlinear_arith)
                requires
                    -0x8000_0000_0000_0000 <= self <= 0x7fff_ffff_ffff_ffff,
                    -0x8000_0000_0000_0000 <= rhs <= 0x7fff_ffff_ffff_ffff,
            ;
        }
        let x = self as i128 * rhs as i128;
        let v = wrap_into(x, i8::MIN as i128, 256i128);
        (v as i8, x > i8::MAX as i128 || x < i8::MIN as i128)
    }

    fn saturating_add(self, rhs: Self) -> (r: Self) {
        let x = self as i128 + rhs as i128;
        if x > i8::MAX as i128 {
            i8::MAX
        } else if x < i8::MIN as i128 {
            i8::MIN
        } else {
            x as i8
        }
    }

    fn saturating_sub(self, rhs: Self) -> (r: Self) {
        let x = self as i128 - rhs as i128;
        if x > i8::MAX as i128 {
            i8::MAX
        } else if x < i8::MIN as i128 {
            i8::MIN
        } else {
            x as i8
        }
    }

    fn checked_add(self, rhs: Self) -> (r: Option<Self>) {
        let x = self as i128 + rhs as i128;
        if x > i8::MAX as i128 || x < i8::MIN as i128 {
            None
        } else {
            Some(x as i8)
        }
    }

    fn checked_sub(self, rhs: Self) -> (r: Option<Self>) {
        let x = self as i128 - rhs as i128;
        if x > i8::MAX as i128 || x < i8::MIN as i128 {
            None
        } else {
            Some(x as i8)
        }
    }

    fn count_ones(self) -> (r: u32) {
        count_ones_of(self.pattern(), 8)
    }

    fn leading_zeros(self) -> (r: u32) {
        leading_zeros_of(self.pattern(), 8)
    }

    fn trailing_zeros(self) -> (r: u32) {
        trailing_zeros_of(self.pattern(), 8)
    }

    fn to_u64_bits(self) -> (r: u64) {
        if self >= 0 {
            self as u64
        } else {
            (self as i128 + 0x1_0000_0000_0000_0000i128) as u64
        }
    }
}

impl Pattern for i8 {
    fn pattern(self) -> (r: u64) {
        if self >= 0 {
            self as u64
        } else {
            (self as i128 + 256i128) as u64
        }
    }
}

impl SignedScalar for i8 {
    fn saturating_abs(self) -> (r: Self) {
        if self >= 0 {
            self
        } else if self == i8::MIN {
            i8::MAX
        } else {
            -self
        }
    }

    fn signum(self) -> (r: Self) {
        if self > 0 {
            1
        } else if self < 0 {
            -1
        } else {
            0
        }
    }
}

impl Sealed for i16 {}

impl RealScalar for i16 {
    open spec fn value(self) -> int {
        self as int
    }

    open spec fn lowest() -> int {
        i16::MIN as int
    }

    open spec fn highest() -> int {
        i16::MAX as int
    }

    open spec fn tag() -> DType {
        DType::I16
    }

    fn dtype() -> (d: DType) {
        DType::I16
    }

    fn to_i128(self) -> (r: i128) {
        self as i128
    }

    fn from_i128(v: i128) -> (r: Self) {
        v as i16
    }

    fn min_value() -> (r: Self) {
        i16::MIN
    }

    fn max_value() -> (r: Self) {
        i16::MAX
    }

    fn abs(self) -> (r: Self) {
        proof {
            if self >= 0 {
                lemma_wrap_once(self as int, i16::MIN as int, 65536, 0);
            } else if self == i16::MIN {
                lemma_wrap_once(-(self as int), i16::MIN as int, 65536, 1);
            } else {
                lemma_wrap_once(-(self as int), i16::MIN as int, 65536, 0);
            }
        }
        if self >= 0 {
            self
        } else if self == i16::MIN {
            self
        } else {
            -self
        }
    }

    fn scalar_max(self, other: Self) -> (r: Self) {
        if self >= other {
            self
        } else {
            other
        }
    }

    fn scalar_min(self, other: Self) -> (r: Self) {
        if self <= other {
            self
        } else {
            other
        }
    }

    fn clamp(self, lo: Self, hi: Self) -> (r: Self) {
        self.scalar_max(lo).scalar_min(hi)
    }
}

impl IntScalar for i16 {
    open spec fn width() -> nat {
        16
    }

    proof fn lemma_limits() {
    }

    fn from_pattern(u: u64) -> (r: Self) {
        let x: u64 = u % 65536;
        if x >= 32768 {
            (x as i128 - 65536) as i16
        } else {
            x as i16
        }
    }

    fn bits() -> (r: u32) {
        16
    }

    fn overflowing_add(self, rhs: Self) -> (r: (Self, bool)) {
        let x = self as i128 + rhs as i128;
        proof {
            if x > i16::MAX as i128 {
                lemma_wrap_once(x as int, i16::MIN as int, 65536, 1);
            } else if x < i16::MIN as i128 {
                lemma_wrap_once(x as int, i16::MIN as int, 65536, -1);
            } else {
                lemma_wrap_once(x as int, i16::MIN as int, 65536, 0);
            }
        }
        if x > i16::MAX as i128 {
            ((x - 65536i128) as i16, true)
        } else if x < i16::MIN as i128 {
            ((x + 65536i128) as i16, true)
        } else {
            (x as i16, false)
        }
    }

    fn overflowing_sub(self, rhs: Self) -> (r: (Self, bool)) {
        let x = self as i128 - rhs as i128;
        proof {
            if x > i16::MAX as i128 {
                lemma_wrap_once(x as int, i16::MIN as int, 65536, 1);
            } else if x < i16::MIN as i128 {
                lemma_wrap_once(x as int, i16::MIN as int, 65536, -1);
            } else {
                lemma_wrap_once(x as int, i16::MIN as int, 65536, 0);
            }
        }
        if x > i16::MAX as i128 {
            ((x - 65536i128) as i16, true)
        } else if x < i16::MIN as i128 {
            ((x + 65536i128) as i16, true)
        } else {
            (x as i16, false)
        }
    }

    fn overflowing_mul(self, rhs: Self) -> (r: (Self, bool)) {
        proof {
            assert(-0x4000_0000_0000_0000_0000_0000_0000_0000 <= (self as int) * (rhs as int)
                <= 0x4000_0000_0000_0000_0000_0000_0000_0000) by (nonlinear_arith)
                requires
                    -0x8000_0000_0000_0000 <= self <= 0x7fff_ffff_ffff_ffff,
                    -0x8000_0000_0000_0000 <= rhs <= 0x7fff_ffff_ffff_ffff,
            ;
        }
        let x = self as i128 * rhs as i128;
        let v = wrap_into(x, i16::MIN as i128, 65536i128);
        (v as i16, x > i16::MAX as i128 || x < i16::MIN as i128)
    }

    fn saturating_add(self, rhs: Self) -> (r: Self) {
        let x = self as i128 + rhs as i128;
        if x > i16::MAX as i128 {
            i16::MAX
        } else if x < i16::MIN as i128 {
            i16::MIN
        } else {
            x as i16
        }
    }

    fn saturating_sub(self, rhs: Self) -> (r: Self) {
        let x = self as i128 - rhs as i128;
        if x > i16::MAX as i128 {
            i16::MAX
        } else if x < i16::MIN as i128 {
            i16::MIN
        } else {
            x as i16
        }
    }

    fn checked_add(self, rhs: Self) -> (r: Option<Self>) {
        let x = self as i128 + rhs as i128;
        if x > i16::MAX as i128 || x < i16::MIN as i128 {
            None
        } else {
            Some(x as i16)
        }
    }

    fn checked_sub(self, rhs: Self) -> (r: Option<Self>) {
        let x = self as i128 - rhs as i128;
        if x > i16::MAX as i128 || x < i16::MIN as i128 {
            None
        } else {
            Some(x as i16)
        }
    }

    fn count_ones(self) -> (r: u32) {
        count_ones_of(self.pattern(), 16)
    }

    fn leading_zeros(self) -> (r: u32) {
        leading_zeros_of(self.pattern(), 16)
    }

    fn trailing_zeros(self) -> (r: u32) {
        trailing_zeros_of(self.pattern(), 16)
    }

    fn to_u64_bits(self) -> (r: u64) {
        if self >= 0 {
            self as u64
        } else {
            (self as i128 + 0x1_0000_0000_0000_0000i128) as u64
        }
    }
}

impl Pattern for i16 {
    fn pattern(self) -> (r: u64) {
        if self >= 0 {
            self as u64
        } else {
            (self as i128 + 65536i128) as u64
        }
    }
}

impl SignedScalar for i16 {
    fn saturating_abs(self) -> (r: Self) {
        if self >= 0 {
            self
        } else if self == i16::MIN {
            i16::MAX
        } else {
            -self
        }
    }

    fn signum(self) -> (r: Self) {
        if self > 0 {
            1
        } else if self < 0 {
            -1
        } else {
            0
        }
    }
}

impl Sealed for i32 {}

impl RealScalar for i32 {
    open spec fn value(self) -> int {
        self as int
    }

    open spec fn lowest() -> int {
        i32::MIN as int
    }

    open spec fn highest() -> int {
        i32::MAX as int
    }

    open spec fn tag() -> DType {
        DType::I32
    }

    fn dtype() -> (d: DType) {
        DType::I32
    }

    fn to_i128(self) -> (r: i128) {
        self as i128
    }

    fn from_i128(v: i128) -> (r: Self) {
        v as i32
    }

    fn min_value() -> (r: Self) {
        i32::MIN
    }

    fn max_value() -> (r: Self) {
        i32::MAX
    }

    fn abs(self) -> (r: Self) {
        proof {
            if self >= 0 {
                lemma_wrap_once(self as int, i32::MIN as int, 4294967296, 0);
            } else if self == i32::MIN {
                lemma_wrap_once(-(self as int), i32::MIN as int, 4294967296, 1);
            } else {
                lemma_wrap_once(-(self as int), i32::MIN as int, 4294967296, 0);
            }
        }
        if self >= 0 {
            self
        } else if self == i32::MIN {
            self
        } else {
            -self
        }
    }

    fn scalar_max(self, other: Self) -> (r: Self) {
        if self >= other {
            self
        } else {
            other
        }
    }

    fn scalar_min(self, other: Self) -> (r: Self) {
        if self <= other {
            self
        } else {
            other
        }
    }

    fn clamp(self, lo: Self, hi: Self) -> (r: Self) {
        self.scalar_max(lo).scalar_min(hi)
    }
}

impl IntScalar for i32 {
    open spec fn width() -> nat {
        32
    }

    proof fn lemma_limits() {
    }

    fn from_pattern(u: u64) -> (r: Self) {
        let x: u64 = u % 4294967296;
        if x >= 2147483648 {
            (x as i128 - 4294967296) as i32
        } else {
            x as i32
        }
    }

    fn bits() -> (r: u32) {
        32
    }

    fn overflowing_add(self, rhs: Self) -> (r: (Self, bool)) {
        let x = self as i128 + rhs as i128;
        proof {
            if x > i32::MAX as i128 {
                lemma_wrap_once(x as int, i32::MIN as int, 4294967296, 1);
            } else if x < i32::MIN as i128 {
                lemma_wrap_once(x as int, i32::MIN as int, 4294967296, -1);
            } else {
                lemma_wrap_once(x as int, i32::MIN as int, 4294967296, 0);
            }
        }
        if x > i32::MAX as i128 {
            ((x - 4294967296i128) as i32, true)
        } else if x < i32::MIN as i128 {
            ((x + 4294967296i128) as i32, true)
        } else {
            (x as i32, false)
        }
    }

    fn overflowing_sub(self, rhs: Self) -> (r: (Self, bool)) {
        let x = self as i128 - rhs as i128;
        proof {
            if x > i32::MAX as i128 {
                lemma_wrap_once(x as int, i32::MIN as int, 4294967296, 1);
            } else if x < i32::MIN as i128 {
                lemma_wrap_once(x as int, i32::MIN as int, 4294967296, -1);
            } else {
                lemma_wrap_once(x as int, i32::MIN as int, 4294967296, 0);
            }
        }
        if x > i32::MAX as i128 {
            ((x - 4294967296i128) as i32, true)
        } else if x < i32::MIN as i128 {
            ((x + 4294967296i128) as i32, true)
        } else {
            (x as i32, false)
        }
    }

    fn overflowing_mul(self, rhs: Self) -> (r: (Self, bool)) {
        proof {
            assert(-0x4000_0000_0000_0000_0000_0000_0000_0000 <= (self as int) * (rhs as int)
                <= 0x4000_0000_0000_0000_0000_0000_0000_0000) by (nonlinear_arith)
                requires
                    -0x8000_0000_0000_0000 <= self <= 0x7fff_ffff_ffff_ffff,
                    -0x8000_0000_0000_0000 <= rhs <= 0x7fff_ffff_ffff_ffff,
            ;
        }
        let x = self as i128 * rhs as i128;
        let v = wrap_into(x, i32::MIN as i128, 4294967296i128);
        (v as i32, x > i32::MAX as i128 || x < i32::MIN as i128)
    }

    fn saturating_add(self, rhs: Self) -> (r: Self) {
        let x = self as i128 + rhs as i128;
        if x > i32::MAX as i128 {
            i32::MAX
        } else if x < i32::MIN as i128 {
            i32::MIN
        } else {
            x as i32
        }
    }

    fn saturating_sub(self, rhs: Self) -> (r: Self) {
        let x = self as i128 - rhs as i128;
        if x > i32::MAX as i128 {
            i32::MAX
        } else if x < i32::MIN as i128 {
            i32::MIN
        } else {
            x as i32
        }
    }

    fn checked_add(self, rhs: Self) -> (r: Option<Self>) {
        let x = self as i128 + rhs as i128;
        if x > i32::MAX as i128 || x < i32::MIN as i128 {
            None
        } else {
            Some(x as i32)
        }
    }

    fn checked_sub(self, rhs: Self) -> (r: Option<Self>) {
        let x = self as i128 - rhs as i128;
        if x > i32::MAX as i128 || x < i32::MIN as i128 {
            None
        } else {
            Some(x as i32)
        }
    }

    fn count_ones(self) -> (r: u32) {
        count_ones_of(self.pattern(), 32)
    }

    fn leading_zeros(self) -> (r: u32) {
        leading_zeros_of(self.pattern(), 32)
    }

    fn trailing_zeros(self) -> (r: u32) {
        trailing_zeros_of(self.pattern(), 32)
    }

    fn to_u64_bits(self) -> (r: u64) {
        if self >= 0 {
            self as u64
        } else {
            (self as i128 + 0x1_0000_0000_0000_0000i128) as u64
        }
    }
}

impl Pattern for i32 {
    fn pattern(self) -> (r: u64) {
        if self >= 0 {
            self as u64
        } else {
            (self as i128 + 4294967296i128) as u64
        }
    }
}

impl SignedScalar for i32 {
    fn saturating_abs(self) -> (r: Self) {
        if self >= 0 {
            self
        } else if self == i32::MIN {
            i32::MAX
        } else {
            -self
        }
    }

    fn signum(self) -> (r: Self) {
        if self > 0 {
            1
        } else if self < 0 {
            -1
        } else {
            0
        }
    }
}

impl Sealed for i64 {}

impl RealScalar for i64 {
    open spec fn value(self) -> int {
        self as int
    }

    open spec fn lowest() -> int {
        i64::MIN as int
    }

    open spec fn highest() -> int {
        i64::MAX as int
    }

    open spec fn tag() -> DType {
        DType::I64
    }

    fn dtype() -> (d: DType) {
        DType::I64
    }

    fn to_i128(self) -> (r: i128) {
        self as i128
    }

    fn from_i128(v: i128) -> (r: Self) {
        v as i64
    }

    fn min_value() -> (r: Self) {
        i64::MIN
    }

    fn max_value() -> (r: Self) {
        i64::MAX
    }

    fn abs(self) -> (r: Self) {
        proof {
            if self >= 0 {
                lemma_wrap_once(self as int, i64::MIN as int, 18446744073709551616, 0);
            } else if self == i64::MIN {
                lemma_wrap_once(-(self as int), i64::MIN as int, 18446744073709551616, 1);
            } else {
                lemma_wrap_once(-(self as int), i64::MIN as int, 18446744073709551616, 0);
            }
        }
        if self >= 0 {
            self
        } else if self == i64::MIN {
            self
        } else {
            -self
        }
    }

    fn scalar_max(self, other: Self) -> (r: Self) {
        if self >= other {
            self
        } else {
            other
        }
    }

    fn scalar_min(self, other: Self) -> (r: Self) {
        if self <= other {
            self
        } else {
            other
        }
    }

    fn clamp(self, lo: Self, hi: Self) -> (r: Self) {
        self.scalar_max(lo).scalar_min(hi)
    }
}

impl IntScalar for i64 {
    open spec fn width() -> nat {
        64
    }

    proof fn lemma_limits() {
    }

    fn from_pattern(u: u64) -> (r: Self) {
        proof {
            vstd::arithmetic::div_mod::lemma_small_mod(u as nat, 0x1_0000_0000_0000_0000nat);
        }
        if u >= 9223372036854775808 {
            (u as i128 - 18446744073709551616i128) as i64
        } else {
            u as i64
        }
    }

    fn bits() -> (r: u32) {
        64
    }

    fn overflowing_add(self, rhs: Self) -> (r: (Self, bool)) {
        let x = self as i128 + rhs as i128;
        proof {
            if x > i64::MAX as i128 {
                lemma_wrap_once(x as int, i64::MIN as int, 18446744073709551616, 1);
            } else if x < i64::MIN as i128 {
                lemma_wrap_once(x as int, i64::MIN as int, 18446744073709551616, -1);
            } else {
                lemma_wrap_once(x as int, i64::MIN as int, 18446744073709551616, 0);
            }
        }
        if x > i64::MAX as i128 {
            ((x - 18446744073709551616i128) as i64, true)
        } else if x < i64::MIN as i128 {
            ((x + 18446744073709551616i128) as i64, true)
        } else {
            (x as i64, false)
        }
    }

    fn overflowing_sub(self, rhs: Self) -> (r: (Self, bool)) {
        let x = self as i128 - rhs as i128;
        proof {
            if x > i64::MAX as i128 {
                lemma_wrap_once(x as int, i64::MIN as int, 18446744073709551616, 1);
            } else if x < i64::MIN as i128 {
                lemma_wrap_once(x as int, i64::MIN as int, 18446744073709551616, -1);
            } else {
                lemma_wrap_once(x as int, i64::MIN as int, 18446744073709551616, 0);
            }
        }
        if x > i64::MAX as i128 {
            ((x - 18446744073709551616i128) as i64, true)
        } else if x < i64::MIN as i128 {
            ((x + 18446744073709551616i128) as i64, true)
        } else {
            (x as i64, false)
        }
    }

    fn overflowing_mul(self, rhs: Self) -> (r: (Self, bool)) {
        proof {
            assert(-0x4000_0000_0000_0000_0000_0000_0000_0000 <= (self as int) * (rhs as int)
                <= 0x4000_0000_0000_0000_0000_0000_0000_0000) by (nonlinear_arith)
                requires
                    -0x8000_0000_0000_0000 <= self <= 0x7fff_ffff_ffff_ffff,
                    -0x8000_0000_0000_0000 <= rhs <= 0x7fff_ffff_ffff_ffff,
            ;
        }
        let x = self as i128 * rhs as i128;
        let v = wrap_into(x, i64::MIN as i128, 18446744073709551616i128);
        (v as i64, x > i64::MAX as i128 || x < i64::MIN as i128)
    }

    fn saturating_add(self, rhs: Self) -> (r: Self) {
        let x = self as i128 + rhs as i128;
        if x > i64::MAX as i128 {
            i64::MAX
        } else if x < i64::MIN as i128 {
            i64::MIN
        } else {
            x as i64
        }
    }

    fn saturating_sub(self, rhs: Self) -> (r: Self) {
        let x = self as i128 - rhs as i128;
        if x > i64::MAX as i128 {
            i64::MAX
        } else if x < i64::MIN as i128 {
            i64::MIN
        } else {
            x as i64
        }
    }

    fn checked_add(self, rhs: Self) -> (r: Option<Self>) {
        let x = self as i128 + rhs as i128;
        if x > i64::MAX as i128 || x < i64::MIN as i128 {
            None
        } else {
            Some(x as i64)
        }
    }

    fn checked_sub(self, rhs: Self) -> (r: Option<Self>) {
        let x = self as i128 - rhs as i128;
        if x > i64::MAX as i128 || x < i64::MIN as i128 {
            None
        } else {
            Some(x as i64)
        }
    }

    fn count_ones(self) -> (r: u32) {
        count_ones_of(self.pattern(), 64)
    }

    fn leading_zeros(self) -> (r: u32) {
        leading_zeros_of(self.pattern(), 64)
    }

    fn trailing_zeros(self) -> (r: u32) {
        trailing_zeros_of(self.pattern(), 64)
    }

    fn to_u64_bits(self) -> (r: u64) {
        if self >= 0 {
            self as u64
        } else {
            (self as i128 + 0x1_0000_0000_0000_0000i128) as u64
        }
    }
}

impl Pattern for i64 {
    fn pattern(self) -> (r: u64) {
        if self >= 0 {
            self as u64
        } else {
            (self as i128 + 18446744073709551616i128) as u64
        }
    }
}

impl SignedScalar for i64 {
    fn saturating_abs(self) -> (r: Self) {
        if self >= 0 {
            self
        } else if self == i64::MIN {
            i64::MAX
        } else {
            -self
        }
    }

    fn signum(self) -> (r: Self) {
        if self > 0 {
            1
        } else if self < 0 {
            -1
        } else {
            0
        }
    }
}

impl Sealed for u8 {}

impl RealScalar for u8 {
    open spec fn value(self) -> int {
        self as int
    }

    open spec fn lowest() -> int {
        u8::MIN as int
    }

    open spec fn highest() -> int {
        u8::MAX as int
    }

    open spec fn tag() -> DType {
        DType::U8
    }

    fn dtype() -> (d: DType) {
        DType::U8
    }

    fn to_i128(self) -> (r: i128) {
        self as i128
    }

    fn from_i128(v: i128) -> (r: Self) {
        v as u8
    }

    fn min_value() -> (r: Self) {
        u8::MIN
    }

    fn max_value() -> (r: Self) {
        u8::MAX
    }

    fn abs(self) -> (r: Self) {
        proof {
            lemma_wrap_once(self as int, 0, 256, 0);
        }
        self
    }

    fn scalar_max(self, other: Self) -> (r: Self) {
        if self >= other {
            self
        } else {
            other
        }
    }

    fn scalar_min(self, other: Self) -> (r: Self) {
        if self <= other {
            self
        } else {
            other
        }
    }

    fn clamp(self, lo: Self, hi: Self) -> (r: Self) {
        self.scalar_max(lo).scalar_min(hi)
    }
}

impl IntScalar for u8 {
    open spec fn width() -> nat {
        8
    }

    proof fn lemma_limits() {
    }

    fn from_pattern(u: u64) -> (r: Self) {
        (u % 256) as u8
    }

    fn bits() -> (r: u32) {
        8
    }

    fn overflowing_add(self, rhs: Self) -> (r: (Self, bool)) {
        let x = self as i128 + rhs as i128;
        proof {
            if x > u8::MAX as i128 {
                lemma_wrap_once(x as int, u8::MIN as int, 256, 1);
            } else if x < u8::MIN as i128 {
                lemma_wrap_once(x as int, u8::MIN as int, 256, -1);
            } else {
                lemma_wrap_once(x as int, u8::MIN as int, 256, 0);
            }
        }
        if x > u8::MAX as i128 {
            ((x - 256i128) as u8, true)
        } else if x < u8::MIN as i128 {
            ((x + 256i128) as u8, true)
        } else {
            (x as u8, false)
        }
    }

    fn overflowing_sub(self, rhs: Self) -> (r: (Self, bool)) {
        let x = self as i128 - rhs as i128;
        proof {
            if x > u8::MAX as i128 {
                lemma_wrap_once(x as int, u8::MIN as int, 256, 1);
            } else if x < u8::MIN as i128 {
                lemma_wrap_once(x as int, u8::MIN as int, 256, -1);
            } else {
                lemma_wrap_once(x as int, u8::MIN as int, 256, 0);
            }
        }
        if x > u8::MAX as i128 {
            ((x - 256i128) as u8, true)
        } else if x < u8::MIN as i128 {
            ((x + 256i128) as u8, true)
        } else {
            (x as u8, false)
        }
    }

    fn overflowing_mul(self, rhs: Self) -> (r: (Self, bool)) {
        proof {
            assert((self as int) * (rhs as int) <= 0xffff_ffff_ffff_fffe_0000_0000_0000_0001) by (nonlinear_arith)
                requires
                    0 <= self <= 0xffff_ffff_ffff_ffff,
                    0 <= rhs <= 0xffff_ffff_ffff_ffff,
            ;
        }
        let x = self as u128 * rhs as u128;
        ((x % 256u128) as u8, x > u8::MAX as u128)
    }

    fn saturating_add(self, rhs: Self) -> (r: Self) {
        let x = self as i128 + rhs as i128;
        if x > u8::MAX as i128 {
            u8::MAX
        } else if x < u8::MIN as i128 {
            u8::MIN
        } else {
            x as u8
        }
    }

    fn saturating_sub(self, rhs: Self) -> (r: Self) {
        let x = self as i128 - rhs as i128;
        if x > u8::MAX as i128 {
            u8::MAX
        } else if x < u8::MIN as i128 {
            u8::MIN
        } else {
            x as u8
        }
    }

    fn checked_add(self, rhs: Self) -> (r: Option<Self>) {
        let x = self as i128 + rhs as i128;
        if x > u8::MAX as i128 || x < u8::MIN as i128 {
            None
        } else {
            Some(x as u8)
        }
    }

    fn checked_sub(self, rhs: Self) -> (r: Option<Self>) {
        let x = self as i128 - rhs as i128;
        if x > u8::MAX as i128 || x < u8::MIN as i128 {
            None
        } else {
            Some(x as u8)
        }
    }

    fn count_ones(self) -> (r: u32) {
        count_ones_of(self.pattern(), 8)
    }

    fn leading_zeros(self) -> (r: u32) {
        leading_zeros_of(self.pattern(), 8)
    }

    fn trailing_zeros(self) -> (r: u32) {
        trailing_zeros_of(self.pattern(), 8)
    }

    fn to_u64_bits(self) -> (r: u64) {
        self as u64
    }
}

impl Pattern for u8 {
    fn pattern(self) -> (r: u64) {
        self as u64
    }
}

impl UnsignedScalar for u8 {}

impl Sealed for u16 {}

impl RealScalar for u16 {
    open spec fn value(self) -> int {
        self as int
    }

    open spec fn lowest() -> int {
        u16::MIN as int
    }

    open spec fn highest() -> int {
        u16::MAX as int
    }

    open spec fn tag() -> DType {
        DType::U16
    }

    fn dtype() -> (d: DType) {
        DType::U16
    }

    fn to_i128(self) -> (r: i128) {
        self as i128
    }

    fn from_i128(v: i128) -> (r: Self) {
        v as u16
    }

    fn min_value() -> (r: Self) {
        u16::MIN
    }

    fn max_value() -> (r: Self) {
        u16::MAX
    }

    fn abs(self) -> (r: Self) {
        proof {
            lemma_wrap_once(self as int, 0, 65536, 0);
        }
        self
    }

    fn scalar_max(self, other: Self) -> (r: Self) {
        if self >= other {
            self
        } else {
            other
        }
    }

    fn scalar_min(self, other: Self) -> (r: Self) {
        if self <= other {
            self
        } else {
            other
        }
    }

    fn clamp(self, lo: Self, hi: Self) -> (r: Self) {
        self.scalar_max(lo).scalar_min(hi)
    }
}

impl IntScalar for u16 {
    open spec fn width() -> nat {
        16
    }

    proof fn lemma_limits() {
    }

    fn from_pattern(u: u64) -> (r: Self) {
        (u % 65536) as u16
    }

    fn bits() -> (r: u32) {
        16
    }

    fn overflowing_add(self, rhs: Self) -> (r: (Self, bool)) {
        let x = self as i128 + rhs as i128;
        proof {
            if x > u16::MAX as i128 {
                lemma_wrap_once(x as int, u16::MIN as int, 65536, 1);
            } else if x < u16::MIN as i128 {
                lemma_wrap_once(x as int, u16::MIN as int, 65536, -1);
            } else {
                lemma_wrap_once(x as int, u16::MIN as int, 65536, 0);
            }
        }
        if x > u16::MAX as i128 {
            ((x - 65536i128) as u16, true)
        } else if x < u16::MIN as i128 {
            ((x + 65536i128) as u16, true)
        } else {
            (x as u16, false)
        }
    }

    fn overflowing_sub(self, rhs: Self) -> (r: (Self, bool)) {
        let x = self as i128 - rhs as i128;
        proof {
            if x > u16::MAX as i128 {
                lemma_wrap_once(x as int, u16::MIN as int, 65536, 1);
            } else if x < u16::MIN as i128 {
                lemma_wrap_once(x as int, u16::MIN as int, 65536, -1);
            } else {
                lemma_wrap_once(x as int, u16::MIN as int, 65536, 0);
            }
        }
        if x > u16::MAX as i128 {
            ((x - 65536i128) as u16, true)
        } else if x < u16::MIN as i128 {
            ((x + 65536i128) as u16, true)
        } else {
            (x as u16, false)
        }
    }

    fn overflowing_mul(self, rhs: Self) -> (r: (Self, bool)) {
        proof {
            assert((self as int) * (rhs as int) <= 0xffff_ffff_ffff_fffe_0000_0000_0000_0001) by (nonlinear_arith)
                requires
                    0 <= self <= 0xffff_ffff_ffff_ffff,
                    0 <= rhs <= 0xffff_ffff_ffff_ffff,
            ;
        }
        let x = self as u128 * rhs as u128;
        ((x % 65536u128) as u16, x > u16::MAX as u128)
    }

    fn saturating_add(self, rhs: Self) -> (r: Self) {
        let x = self as i128 + rhs as i128;
        if x > u16::MAX as i128 {
            u16::MAX
        } else if x < u16::MIN as i128 {
            u16::MIN
        } else {
            x as u16
        }
    }

    fn saturating_sub(self, rhs: Self) -> (r: Self) {
        let x = self as i128 - rhs as i128;
        if x > u16::MAX as i128 {
            u16::MAX
        } else if x < u16::MIN as i128 {
            u16::MIN
        } else {
            x as u16
        }
    }

    fn checked_add(self, rhs: Self) -> (r: Option<Self>) {
        let x = self as i128 + rhs as i128;
        if x > u16::MAX as i128 || x < u16::MIN as i128 {
            None
        } else {
            Some(x as u16)
        }
    }

    fn checked_sub(self, rhs: Self) -> (r: Option<Self>) {
        let x = self as i128 - rhs as i128;
        if x > u16::MAX as i128 || x < u16::MIN as i128 {
            None
        } else {
            Some(x as u16)
        }
    }

    fn count_ones(self) -> (r: u32) {
        count_ones_of(self.pattern(), 16)
    }

    fn leading_zeros(self) -> (r: u32) {
        leading_zeros_of(self.pattern(), 16)
    }

    fn trailing_zeros(self) -> (r: u32) {
        trailing_zeros_of(self.pattern(), 16)
    }

    fn to_u64_bits(self) -> (r: u64) {
        self as u64
    }
}

impl Pattern for u16 {
    fn pattern(self) -> (r: u64) {
        self as u64
    }
}

impl UnsignedScalar for u16 {}

impl Sealed for u32 {}

impl RealScalar for u32 {
    open spec fn value(self) -> int {
        self as int
    }

    open spec fn lowest() -> int {
        u32::MIN as int
    }

    open spec fn highest() -> int {
        u32::MAX as int
    }

    open spec fn tag() -> DType {
        DType::U32
    }

    fn dtype() -> (d: DType) {
        DType::U32
    }

    fn to_i128(self) -> (r: i128) {
        self as i128
    }

    fn from_i128(v: i128) -> (r: Self) {
        v as u32
    }

    fn min_value() -> (r: Self) {
        u32::MIN
    }

    fn max_value() -> (r: Self) {
        u32::MAX
    }

    fn abs(self) -> (r: Self) {
        proof {
            lemma_wrap_once(self as int, 0, 4294967296, 0);
        }
        self
    }

    fn scalar_max(self, other: Self) -> (r: Self) {
        if self >= other {
            self
        } else {
            other
        }
    }

    fn scalar_min(self, other: Self) -> (r: Self) {
        if self <= other {
            self
        } else {
            other
        }
    }

    fn clamp(self, lo: Self, hi: Self) -> (r: Self) {
        self.scalar_max(lo).scalar_min(hi)
    }
}

impl IntScalar for u32 {
    open spec fn width() -> nat {
        32
    }

    proof fn lemma_limits() {
    }

    fn from_pattern(u: u64) -> (r: Self) {
        (u % 4294967296) as u32
    }

    fn bits() -> (r: u32) {
        32
    }

    fn overflowing_add(self, rhs: Self) -> (r: (Self, bool)) {
        let x = self as i128 + rhs as i128;
        proof {
            if x > u32::MAX as i128 {
                lemma_wrap_once(x as int, u32::MIN as int, 4294967296, 1);
            } else if x < u32::MIN as i128 {
                lemma_wrap_once(x as int, u32::MIN as int, 4294967296, -1);
            } else {
                lemma_wrap_once(x as int, u32::MIN as int, 4294967296, 0);
            }
        }
        if x > u32::MAX as i128 {
            ((x - 4294967296i128) as u32, true)
        } else if x < u32::MIN as i128 {
            ((x + 4294967296i128) as u32, true)
        } else {
            (x as u32, false)
        }
    }

    fn overflowing_sub(self, rhs: Self) -> (r: (Self, bool)) {
        let x = self as i128 - rhs as i128;
        proof {
            if x > u32::MAX as i128 {
                lemma_wrap_once(x as int, u32::MIN as int, 4294967296, 1);
            } else if x < u32::MIN as i128 {
                lemma_wrap_once(x as int, u32::MIN as int, 4294967296, -1);
            } else {
                lemma_wrap_once(x as int, u32::MIN as int, 4294967296, 0);
            }
        }
        if x > u32::MAX as i128 {
            ((x - 4294967296i128) as u32, true)
        } else if x < u32::MIN as i128 {
            ((x + 4294967296i128) as u32, true)
        } else {
            (x as u32, false)
        }
    }

    fn overflowing_mul(self, rhs: Self) -> (r: (Self, bool)) {
        proof {
            assert((self as int) * (rhs as int) <= 0xffff_ffff_ffff_fffe_0000_0000_0000_0001) by (nonlinear_arith)
                requires
                    0 <= self <= 0xffff_ffff_ffff_ffff,
                    0 <= rhs <= 0xffff_ffff_ffff_ffff,
            ;
        }
        let x = self as u128 * rhs as u128;
        ((x % 4294967296u128) as u32, x > u32::MAX as u128)
    }

    fn saturating_add(self, rhs: Self) -> (r: Self) {
        let x = self as i128 + rhs as i128;
        if x > u32::MAX as i128 {
            u32::MAX
        } else if x < u32::MIN as i128 {
            u32::MIN
        } else {
            x as u32
        }
    }

    fn saturating_sub(self, rhs: Self) -> (r: Self) {
        let x = self as i128 - rhs as i128;
        if x > u32::MAX as i128 {
            u32::MAX
        } else if x < u32::MIN as i128 {
            u32::MIN
        } else {
            x as u32
        }
    }

    fn checked_add(self, rhs: Self) -> (r: Option<Self>) {
        let x = self as i128 + rhs as i128;
        if x > u32::MAX as i128 || x < u32::MIN as i128 {
            None
        } else {
            Some(x as u32)
        }
    }

    fn checked_sub(self, rhs: Self) -> (r: Option<Self>) {
        let x = self as i128 - rhs as i128;
        if x > u32::MAX as i128 || x < u32::MIN as i128 {
            None
        } else {
            Some(x as u32)
        }
    }

    fn count_ones(self) -> (r: u32) {
        count_ones_of(self.pattern(), 32)
    }

    fn leading_zeros(self) -> (r: u32) {
        leading_zeros_of(self.pattern(), 32)
    }

    fn trailing_zeros(self) -> (r: u32) {
        trailing_zeros_of(self.pattern(), 32)
    }

    fn to_u64_bits(self) -> (r: u64) {
        self as u64
    }
}

impl Pattern for u32 {
    fn pattern(self) -> (r: u64) {
        self as u64
    }
}

impl UnsignedScalar for u32 {}

impl Sealed for u64 {}

impl RealScalar for u64 {
    open spec fn value(self) -> int {
        self as int
    }

    open spec fn lowest() -> int {
        u64::MIN as int
    }

    open spec fn highest() -> int {
        u64::MAX as int
    }

    open spec fn tag() -> DType {
        DType::U64
    }

    fn dtype() -> (d: DType) {
        DType::U64
    }

    fn to_i128(self) -> (r: i128) {
        self as i128
    }

    fn from_i128(v: i128) -> (r: Self) {
        v as u64
    }

    fn min_value() -> (r: Self) {
        u64::MIN
    }

    fn max_value() -> (r: Self) {
        u64::MAX
    }

    fn abs(self) -> (r: Self) {
        proof {
            lemma_wrap_once(self as int, 0, 18446744073709551616, 0);
        }
        self
    }

    fn scalar_max(self, other: Self) -> (r: Self) {
        if self >= other {
            self
        } else {
            other
        }
    }

    fn scalar_min(self, other: Self) -> (r: Self) {
        if self <= other {
            self
        } else {
            other
        }
    }

    fn clamp(self, lo: Self, hi: Self) -> (r: Self) {
        self.scalar_max(lo).scalar_min(hi)
    }
}

impl IntScalar for u64 {
    open spec fn width() -> nat {
        64
    }

    proof fn lemma_limits() {
    }

    fn from_pattern(u: u64) -> (r: Self) {
        proof {
            vstd::arithmetic::div_mod::lemma_small_mod(u as nat, 0x1_0000_0000_0000_0000nat);
        }
        u
    }

    fn bits() -> (r: u32) {
        64
    }

    fn overflowing_add(self, rhs: Self) -> (r: (Self, bool)) {
        let x = self as i128 + rhs as i128;
        proof {
            if x > u64::MAX as i128 {
                lemma_wrap_once(x as int, u64::MIN as int, 18446744073709551616, 1);
            } else if x < u64::MIN as i128 {
                lemma_wrap_once(x as int, u64::MIN as int, 18446744073709551616, -1);
            } else {
                lemma_wrap_once(x as int, u64::MIN as int, 18446744073709551616, 0);
            }
        }
        if x > u64::MAX as i128 {
            ((x - 18446744073709551616i128) as u64, true)
        } else if x < u64::MIN as i128 {
            ((x + 18446744073709551616i128) as u64, true)
        } else {
            (x as u64, false)
        }
    }

    fn overflowing_sub(self, rhs: Self) -> (r: (Self, bool)) {
        let x = self as i128 - rhs as i128;
        proof {
            if x > u64::MAX as i128 {
                lemma_wrap_once(x as int, u64::MIN as int, 18446744073709551616, 1);
            } else if x < u64::MIN as i128 {
                lemma_wrap_once(x as int, u64::MIN as int, 18446744073709551616, -1);
            } else {
                lemma_wrap_once(x as int, u64::MIN as int, 18446744073709551616, 0);
            }
        }
        if x > u64::MAX as i128 {
            ((x - 18446744073709551616i128) as u64, true)
        } else if x < u64::MIN as i128 {
            ((x + 18446744073709551616i128) as u64, true)
        } else {
            (x as u64, false)
        }
    }

    fn overflowing_mul(self, rhs: Self) -> (r: (Self, bool)) {
        proof {
            assert((self as int) * (rhs as int) <= 0xffff_ffff_ffff_fffe_0000_0000_0000_0001) by (nonlinear_arith)
                requires
                    0 <= self <= 0xffff_ffff_ffff_ffff,
                    0 <= rhs <= 0xffff_ffff_ffff_ffff,
            ;
        }
        let x = self as u128 * rhs as u128;
        ((x % 18446744073709551616u128) as u64, x > u64::MAX as u128)
    }

    fn saturating_add(self, rhs: Self) -> (r: Self) {
        let x = self as i128 + rhs as i128;
        if x > u64::MAX as i128 {
            u64::MAX
        } else if x < u64::MIN as i128 {
            u64::MIN
        } else {
            x as u64
        }
    }

    fn saturating_sub(self, rhs: Self) -> (r: Self) {
        let x = self as i128 - rhs as i128;
        if x > u64::MAX as i128 {
            u64::MAX
        } else if x < u64::MIN as i128 {
            u64::MIN
        } else {
            x as u64
        }
    }

    fn checked_add(self, rhs: Self) -> (r: Option<Self>) {
        let x = self as i128 + rhs as i128;
        if x > u64::MAX as i128 || x < u64::MIN as i128 {
            None
        } else {
            Some(x as u64)
        }
    }

    fn checked_sub(self, rhs: Self) -> (r: Option<Self>) {
        let x = self as i128 - rhs as i128;
        if x > u64::MAX as i128 || x < u64::MIN as i128 {
            None
        } else {
            Some(x as u64)
        }
    }

    fn count_ones(self) -> (r: u32) {
        count_ones_of(self.pattern(), 64)
    }

    fn leading_zeros(self) -> (r: u32) {
        leading_zeros_of(self.pattern(), 64)
    }

    fn trailing_zeros(self) -> (r: u32) {
        trailing_zeros_of(self.pattern(), 64)
    }

    fn to_u64_bits(self) -> (r: u64) {
        self as u64
    }
}

impl Pattern for u64 {
    fn pattern(self) -> (r: u64) {
        self as u64
    }
}

impl UnsignedScalar for u64 {}

/// The two's-complement bit pattern of an integer element.
trait Pattern: IntScalar {
    /// The pattern of the low `width` bits, as an unsigned integer.
    fn pattern(self) -> (r: u64)
        ensures
            r == bit_pattern(self.value(), Self::highest() - Self::lowest() + 1),
    ;
}

impl Sealed for bool {}

} // verus!

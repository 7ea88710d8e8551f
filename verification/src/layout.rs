//! Array layout descriptor: shape, byte strides, offset and element size.
//!
//! A `Layout` owns no bytes; it describes how to index into a backing buffer.
use vstd::prelude::*;
use vstd::slice::slice_to_vec;
use vstd::string::StringExecFns;
use crate::error::{MohuError, MohuResult};
use crate::shapevec::{ShapeVec, StrideVec};
use crate::strides::{
    broadcast_result, broadcast_strides, broadcastable, byte_offset, c_stride_acc, c_strides,
    f_stride_acc, f_strides, first_misaligned_error, in_bounds, lemma_shape_product_nonneg,
    lemma_take_step, offset_fits, offset_sum, prefixes_fit, shape_product, strides_aligned,
    validate_strides, zip_len,
};
use crate::text::{decimal, push_decimal, push_decimal_i64, signed_decimal, string_of};

verus! {

// ─── Order ───────────────────────────────────────────────────────────────────

/// Memory order preference for new contiguous allocations.
#[derive(Debug, Clone, Copy, PartialEq, Eq, Hash, Structural)]
pub enum Order {
    /// Row-major (C) order — the last axis varies fastest.
    C,
    /// Column-major (Fortran) order — the first axis varies fastest.
    F,
}

// ─── SliceArg ────────────────────────────────────────────────────────────────

/// Arguments for slicing one axis: `start:stop:step`.
///
/// `None` values default to 0 (start), `dim` (stop) and 1 (step); negative
/// values count from the end; `step` must not be zero. A negative step
/// walks backward, by default from the last index through index 0, and the
/// bounds are adjusted as Python's range slicing adjusts them.
#[derive(Debug, Clone, Copy, PartialEq, Eq, Structural)]
pub struct SliceArg {
    pub start: Option<i64>,
    pub stop: Option<i64>,
    pub step: Option<i64>,
}

/// A slice bound `v` on an axis of length `dim`, adjusted as Python's
/// range slicing does: a negative bound counts from the end; one still
/// before index 0 becomes 0 for a forward step and -1 (before the first
/// index) for a backward one; one at or past the end becomes `dim` for a
/// forward step and `dim - 1` for a backward one.
pub open spec fn py_bound(v: i64, dim: usize, forward: bool) -> int {
    if v < 0 {
        if v + dim >= 0 {
            v + dim
        } else if forward {
            0
        } else {
            -1
        }
    } else if v >= dim {
        if forward {
            dim as int
        } else {
            dim - 1
        }
    } else {
        v as int
    }
}

/// `ceil(a / b)`.
pub open spec fn ceil_div(a: nat, b: nat) -> nat {
    if a % b == 0 {
        a / b
    } else {
        a / b + 1
    }
}

/// The step of a slice argument (1 by default).
pub open spec fn slice_step(arg: SliceArg) -> i64 {
    match arg.step {
        Some(s) => s,
        None => 1,
    }
}

/// The adjusted start bound of a slice: the first index it selects when
/// it selects any (by default 0 for a forward step, `dim - 1` for a
/// backward one).
pub open spec fn slice_lo(arg: SliceArg, dim: usize) -> int {
    let forward = slice_step(arg) > 0;
    match arg.start {
        Some(v) => py_bound(v, dim, forward),
        None => if forward {
            0
        } else {
            dim - 1
        },
    }
}

/// The adjusted, exclusive stop bound of a slice (by default `dim` for a
/// forward step, -1, before the first index, for a backward one).
pub open spec fn slice_hi(arg: SliceArg, dim: usize) -> int {
    let forward = slice_step(arg) > 0;
    match arg.stop {
        Some(v) => py_bound(v, dim, forward),
        None => if forward {
            dim as int
        } else {
            -1
        },
    }
}

/// The first selected index of a resolved slice; 0 when a backward slice
/// starts before index 0 (and so selects nothing).
pub open spec fn slice_start(arg: SliceArg, dim: usize) -> usize {
    let lo = slice_lo(arg, dim);
    if lo < 0 {
        0
    } else {
        lo as usize
    }
}

/// The number of selected indices: those from the start bound, moving by
/// the step, that lie before the stop bound in the step's direction.
pub open spec fn slice_count(arg: SliceArg, dim: usize) -> nat {
    let step = slice_step(arg);
    let lo = slice_lo(arg, dim);
    let hi = slice_hi(arg, dim);
    if step > 0 {
        if hi > lo {
            ceil_div((hi - lo) as nat, step as nat)
        } else {
            0
        }
    } else if lo > hi {
        ceil_div((lo - hi) as nat, (-step) as nat)
    } else {
        0
    }
}

/// The outcome of [`SliceArg::resolve`].
pub open spec fn spec_resolve(arg: SliceArg, dim: usize) -> MohuResult<(usize, usize, isize)> {
    if slice_step(arg) == 0 {
        Err(MohuError::ZeroSliceStep)
    } else {
        Ok((slice_start(arg, dim), slice_count(arg, dim) as usize, slice_step(arg) as isize))
    }
}

fn div_ceil_usize(a: usize, b: usize) -> (r: usize)
    requires
        b > 0,
    ensures
        r == ceil_div(a as nat, b as nat),
{
    let q = a / b;
    if a % b == 0 {
        q
    } else {
        proof {
            assert(q * b <= a) by (nonlinear_arith)
                requires
                    q == a / b,
                    b > 0,
            ;
            assert(q < a || a == 0 || b == 1 || q <= a) by (nonlinear_arith)
                requires
                    q == a / b,
                    b > 0,
            ;
            assert(q + 1 <= usize::MAX) by (nonlinear_arith)
                requires
                    q == a / b,
                    b > 1 || a % b == 0,
                    a % b != 0,
                    b > 0,
                    a <= usize::MAX,
            ;
        }
        q + 1
    }
}

/// `ceil(a / b)` for a divisor that may exceed `usize`.
fn div_ceil_wide(a: usize, b: u64) -> (r: usize)
    requires
        b > 0,
    ensures
        r == ceil_div(a as nat, b as nat),
{
    if b > usize::MAX as u64 {
        if a == 0 {
            proof {
                assert(0nat % (b as nat) == 0 && 0nat / (b as nat) == 0) by (nonlinear_arith)
                    requires
                        b > 0,
                ;
            }
            0
        } else {
            proof {
                assert((a as nat) % (b as nat) == a && (a as nat) / (b as nat) == 0) by (nonlinear_arith)
                    requires
                        0 < a < b,
                ;
            }
            1
        }
    } else {
        div_ceil_usize(a, b as usize)
    }
}

/// The bound `v` adjusted as [`py_bound`] describes.
fn adjust_bound(v: i64, dim: usize, forward: bool) -> (r: i64)
    requires
        dim <= i64::MAX,
    ensures
        r == py_bound(v, dim, forward),
{
    let idim = dim as i64;
    if v < 0 {
        if v + idim >= 0 {
            v + idim
        } else if forward {
            0
        } else {
            -1
        }
    } else if v >= idim {
        if forward {
            idim
        } else {
            idim - 1
        }
    } else {
        v
    }
}

impl SliceArg {
    /// Resolves this slice against an axis of length `dim`, returning
    /// `(start_index, element_count, step)` in element units.
    ///
    /// Returns `Err(ZeroSliceStep)` if `step == 0`.
    pub fn resolve(self, dim: usize) -> (r: MohuResult<(usize, usize, isize)>)
        requires
            dim <= i64::MAX,
            self.step != Some(i64::MIN),
        ensures
            r == spec_resolve(self, dim),
    {
        let step = match self.step {
            Some(s) => s,
            None => 1,
        };
        if step == 0 {
            return Err(MohuError::ZeroSliceStep);
        }
        let idim = dim as i64;
        let forward = step > 0;
        let lo: i64 = match self.start {
            Some(v) => adjust_bound(v, dim, forward),
            None => if forward {
                0
            } else {
                idim - 1
            },
        };
        let hi: i64 = match self.stop {
            Some(v) => adjust_bound(v, dim, forward),
            None => if forward {
                idim
            } else {
                -1
            },
        };
        let count = if forward {
            if hi > lo {
                div_ceil_wide((hi - lo) as usize, step as u64)
            } else {
                0
            }
        } else if lo > hi {
            div_ceil_wide((lo - hi) as usize, (-step) as u64)
        } else {
            0
        };
        let start: usize = if lo < 0 {
            0
        } else {
            lo as usize
        };
        Ok((start, count, step as isize))
    }
}

/// Every index `start + k * step` with `k < count` that a resolved slice
/// selects lies inside the axis.
pub proof fn lemma_resolve_in_bounds(arg: SliceArg, dim: usize, k: nat)
    requires
        slice_step(arg) != 0,
        k < slice_count(arg, dim),
    ensures
        0 <= slice_start(arg, dim) + k * slice_step(arg) < dim,
{
    let step = slice_step(arg) as int;
    let lo = slice_lo(arg, dim);
    let hi = slice_hi(arg, dim);
    if step > 0 {
        assert(0 <= lo && hi <= dim);
        let n = (hi - lo) as nat;
        let c = ceil_div(n, step as nat);
        assert(k * step < n) by (nonlinear_arith)
            requires
                k < c,
                c == (if n % (step as nat) == 0 { n / (step as nat) } else { n / (step as nat) + 1 }),
                step > 0,
                n >= 0,
        ;
        assert(k * step >= 0) by (nonlinear_arith)
            requires
                k >= 0,
                step > 0,
        ;
    } else {
        assert(-1 <= hi && lo <= dim - 1);
        let a = (-step) as nat;
        let n = (lo - hi) as nat;
        let c = ceil_div(n, a);
        assert(k * a < n) by (nonlinear_arith)
            requires
                k < c,
                c == (if n % a == 0 { n / a } else { n / a + 1 }),
                a > 0,
        ;
        assert(k * step == -(k * a)) by (nonlinear_arith)
            requires
                a == -step,
        ;
        assert(k * a >= 0) by (nonlinear_arith)
            requires
                k >= 0,
                a > 0,
        ;
    }
}

// ─── Error message texts ─────────────────────────────────────────────────────

/// `0..{ndim}`
pub open spec fn half_open_text(ndim: nat) -> Seq<char> {
    "0.."@ + decimal(ndim)
}

/// `0..={ndim}`
pub open spec fn closed_text(ndim: nat) -> Seq<char> {
    "0..="@ + decimal(ndim)
}

/// `-{ndim}..{ndim}`
pub open spec fn signed_range_text(ndim: int) -> Seq<char> {
    "-"@ + signed_decimal(ndim) + ".."@ + signed_decimal(ndim)
}

fn half_open_string(ndim: usize) -> (r: String)
    ensures
        r@ == half_open_text(ndim as nat),
{
    let mut s = string_of("0..");
    push_decimal(&mut s, ndim as u64);
    s
}

fn closed_string(ndim: usize) -> (r: String)
    ensures
        r@ == closed_text(ndim as nat),
{
    let mut s = string_of("0..=");
    push_decimal(&mut s, ndim as u64);
    s
}

// ─── Layout ──────────────────────────────────────────────────────────────────

/// The mathematical content of a [`Layout`].
pub struct LayoutView {
    pub shape: Seq<usize>,
    pub strides: Seq<isize>,
    pub offset: usize,
    pub itemsize: usize,
}

/// Shape, byte strides, offset and element size of an N-dimensional view.
#[derive(Debug)]
pub struct Layout {
    shape: ShapeVec,
    strides: StrideVec,
    /// Byte offset from buffer start to element `[0, 0, …, 0]`.
    offset: usize,
    /// Size in bytes of one scalar element.
    itemsize: usize,
}

impl View for Layout {
    type V = LayoutView;

    closed spec fn view(&self) -> LayoutView {
        LayoutView { shape: self.shape@, strides: self.strides@, offset: self.offset, itemsize: self.itemsize }
    }
}

/// The view of a layout built from its four parts.
pub open spec fn layout_of(shape: Seq<usize>, strides: Seq<isize>, offset: usize, itemsize: usize) -> LayoutView {
    LayoutView { shape, strides, offset, itemsize }
}

/// Every layout has as many strides as dimensions.
pub open spec fn layout_wf(v: LayoutView) -> bool {
    v.shape.len() == v.strides.len()
}

/// The strides are the C-order strides of the shape.
pub open spec fn c_contiguous(v: LayoutView) -> bool {
    v.shape.contains(0) || v.shape.len() == 0 || forall|i: int|
        0 <= i < v.shape.len() ==> #[trigger] v.strides[i] == c_stride_acc(v.shape, v.itemsize, i + 1)
}

/// The strides are the Fortran-order strides of the shape.
pub open spec fn f_contiguous(v: LayoutView) -> bool {
    v.shape.contains(0) || v.shape.len() == 0 || forall|i: int|
        0 <= i < v.shape.len() ==> #[trigger] v.strides[i] == f_stride_acc(v.shape, v.itemsize, i)
}

/// The message of the error raised for mismatched shape and stride counts.
pub open spec fn new_custom_len_text(a: nat, b: nat) -> Seq<char> {
    "Layout::new_custom: shape.len()="@ + decimal(a) + " != strides.len()="@ + decimal(b)
}

/// The outcome of building a layout from parts, errors described by
/// `custom_error`.
pub open spec fn custom_ok(shape: Seq<usize>, strides: Seq<isize>, itemsize: usize) -> bool {
    shape.len() == strides.len() && itemsize != 0 && strides_aligned(shape, strides, itemsize)
}

/// `e` is the error reported for parts that fail `custom_ok`.
pub open spec fn custom_error(e: MohuError, shape: Seq<usize>, strides: Seq<isize>, itemsize: usize) -> bool {
    if shape.len() != strides.len() {
        e matches MohuError::Internal(m) && m@ == new_custom_len_text(shape.len(), strides.len())
    } else if itemsize == 0 {
        e matches MohuError::Internal(m) && m@ == "Layout::new_custom: itemsize == 0"@
    } else {
        first_misaligned_error(e, shape, strides, itemsize)
    }
}

impl Layout {
    #[verifier::type_invariant]
    spec fn inv(self) -> bool {
        self.shape@.len() == self.strides@.len()
    }

    /// Creates a layout from explicit shape, strides, offset and itemsize.
    ///
    /// Fails when the lengths differ, when `itemsize == 0`, or when a stride
    /// of an axis spanning more than one element is not a multiple of `itemsize`.
    pub fn new_custom(shape: &[usize], strides: &[isize], offset: usize, itemsize: usize) -> (r: MohuResult<Self>)
        ensures
            r is Ok <==> custom_ok(shape@, strides@, itemsize),
            r matches Ok(l) ==> l@ == layout_of(shape@, strides@, offset, itemsize),
            r matches Err(e) ==> custom_error(e, shape@, strides@, itemsize),
    {
        if shape.len() != strides.len() {
            let mut m = string_of("Layout::new_custom: shape.len()=");
            push_decimal(&mut m, shape.len() as u64);
            m.append(" != strides.len()=");
            push_decimal(&mut m, strides.len() as u64);
            return Err(MohuError::Internal(m));
        }
        if itemsize == 0 {
            return Err(MohuError::Internal(string_of("Layout::new_custom: itemsize == 0")));
        }
        validate_strides(shape, strides, itemsize, false)?;
        Ok(Layout { shape: ShapeVec::from_slice(shape), strides: StrideVec::from_slice(strides), offset, itemsize })
    }

    /// Creates a C-contiguous (row-major) layout for `shape`.
    pub fn new_c(shape: &[usize], itemsize: usize) -> (r: MohuResult<Self>)
        ensures
            ({
                let st = Seq::new(shape@.len(), |i: int| c_stride_acc(shape@, itemsize, i + 1));
                &&& r is Ok <==> custom_ok(shape@, st, itemsize)
                &&& r matches Ok(l) ==> l@ == layout_of(shape@, st, 0, itemsize)
                &&& r matches Err(e) ==> custom_error(e, shape@, st, itemsize)
            }),
    {
        let strides = c_strides(shape, itemsize);
        proof {
            assert(strides@ =~= Seq::new(shape@.len(), |i: int| c_stride_acc(shape@, itemsize, i + 1)));
        }
        Self::new_custom(shape, strides.as_slice(), 0, itemsize)
    }

    /// Creates a Fortran-contiguous (column-major) layout for `shape`.
    pub fn new_f(shape: &[usize], itemsize: usize) -> (r: MohuResult<Self>)
        ensures
            ({
                let st = Seq::new(shape@.len(), |i: int| f_stride_acc(shape@, itemsize, i));
                &&& r is Ok <==> custom_ok(shape@, st, itemsize)
                &&& r matches Ok(l) ==> l@ == layout_of(shape@, st, 0, itemsize)
                &&& r matches Err(e) ==> custom_error(e, shape@, st, itemsize)
            }),
    {
        let strides = f_strides(shape, itemsize);
        proof {
            assert(strides@ =~= Seq::new(shape@.len(), |i: int| f_stride_acc(shape@, itemsize, i)));
        }
        Self::new_custom(shape, strides.as_slice(), 0, itemsize)
    }

    /// Creates a 0-dimensional (scalar) layout holding one element.
    pub fn scalar(itemsize: usize) -> (r: Self)
        ensures
            r@ == layout_of(Seq::empty(), Seq::empty(), 0, itemsize),
    {
        Layout { shape: ShapeVec::new(), strides: StrideVec::new(), offset: 0, itemsize }
    }

    /// Number of dimensions.
    pub fn ndim(&self) -> (r: usize)
        ensures
            r == self@.shape.len(),
    {
        self.shape.len()
    }

    /// Total number of elements (product of the shape).
    pub fn size(&self) -> (r: usize)
        requires
            prefixes_fit(self@.shape, usize::MAX as int),
        ensures
            r == shape_product(self@.shape),
    {
        let s = self.shape.as_slice();
        let n = s.len();
        let mut total: usize = 1;
        let mut i: usize = 0;
        proof {
            assert(s@.take(0) =~= Seq::<usize>::empty());
        }
        while i < n
            invariant
                i <= n,
                n == s@.len(),
                s@ == self@.shape,
                prefixes_fit(s@, usize::MAX as int),
                total == shape_product(s@.take(i as int)),
            decreases n - i,
        {
            proof {
                lemma_take_step(s@, i as int);
                assert(shape_product(s@.take(i + 1)) <= usize::MAX);
            }
            total = total * s[i];
            i = i + 1;
        }
        proof {
            assert(s@.take(n as int) =~= s@);
        }
        total
    }

    /// The shape, as a slice of dimension sizes.
    pub fn shape(&self) -> (r: &[usize])
        ensures
            r@ == self@.shape,
    {
        self.shape.as_slice()
    }

    /// The byte strides.
    pub fn strides(&self) -> (r: &[isize])
        ensures
            r@ == self@.strides,
            r@.len() == self@.shape.len(),
    {
        proof {
            use_type_invariant(self);
        }
        self.strides.as_slice()
    }

    /// Byte offset of element `[0, …, 0]` from the buffer start.
    pub fn offset(&self) -> (r: usize)
        ensures
            r == self@.offset,
    {
        self.offset
    }

    /// Size in bytes of one element.
    pub fn itemsize(&self) -> (r: usize)
        ensures
            r == self@.itemsize,
    {
        self.itemsize
    }

    /// Total bytes of a contiguous copy (`size * itemsize`).
    pub fn nbytes(&self) -> (r: usize)
        requires
            prefixes_fit(self@.shape, usize::MAX as int),
            shape_product(self@.shape) * self@.itemsize <= usize::MAX,
        ensures
            r == shape_product(self@.shape) * self@.itemsize,
    {
        self.size() * self.itemsize
    }

    /// Returns `true` for a 0-dimensional layout.
    pub fn is_scalar(&self) -> (r: bool)
        ensures
            r == (self@.shape.len() == 0),
    {
        self.ndim() == 0
    }

    /// Returns `true` if any dimension is 0.
    pub fn is_empty(&self) -> (r: bool)
        ensures
            r == self@.shape.contains(0),
    {
        let s = self.shape.as_slice();
        let mut i: usize = 0;
        while i < s.len()
            invariant
                i <= s@.len(),
                s@ == self@.shape,
                forall|j: int| 0 <= j < i ==> #[trigger] s@[j] != 0,
            decreases s@.len() - i,
        {
            if s[i] == 0 {
                return true;
            }
            i = i + 1;
        }
        false
    }

    /// Returns `true` if the strides are the C-order strides of the shape.
    pub fn is_c_contiguous(&self) -> (r: bool)
        ensures
            r == c_contiguous(self@),
    {
        proof {
            use_type_invariant(self);
        }
        if self.is_empty() || self.ndim() == 0 {
            return true;
        }
        let expected = c_strides(self.shape.as_slice(), self.itemsize);
        let st = self.strides.as_slice();
        let ex = expected.as_slice();
        let mut i: usize = 0;
        while i < st.len()
            invariant
                i <= st@.len(),
                st@ == self@.strides,
                st@.len() == self@.shape.len(),
                ex@.len() == self@.shape.len(),
                !self@.shape.contains(0),
                self@.shape.len() > 0,
                forall|k: int| 0 <= k < self@.shape.len() ==> #[trigger] ex@[k] == c_stride_acc(self@.shape, self@.itemsize, k + 1),
                forall|k: int| 0 <= k < i ==> #[trigger] st@[k] == ex@[k],
            decreases st@.len() - i,
        {
            if st[i] != ex[i] {
                proof {
                    assert(self@.strides[i as int] != ex@[i as int]);
                }
                return false;
            }
            i = i + 1;
        }
        true
    }

    /// Returns `true` if the strides are the Fortran-order strides of the shape.
    pub fn is_f_contiguous(&self) -> (r: bool)
        ensures
            r == f_contiguous(self@),
    {
        proof {
            use_type_invariant(self);
        }
        if self.is_empty() || self.ndim() == 0 {
            return true;
        }
        let expected = f_strides(self.shape.as_slice(), self.itemsize);
        let st = self.strides.as_slice();
        let ex = expected.as_slice();
        let mut i: usize = 0;
        while i < st.len()
            invariant
                i <= st@.len(),
                st@ == self@.strides,
                st@.len() == self@.shape.len(),
                ex@.len() == self@.shape.len(),
                !self@.shape.contains(0),
                self@.shape.len() > 0,
                forall|k: int| 0 <= k < self@.shape.len() ==> #[trigger] ex@[k] == f_stride_acc(self@.shape, self@.itemsize, k),
                forall|k: int| 0 <= k < i ==> #[trigger] st@[k] == ex@[k],
            decreases st@.len() - i,
        {
            if st[i] != ex[i] {
                proof {
                    assert(self@.strides[i as int] != ex@[i as int]);
                }
                return false;
            }
            i = i + 1;
        }
        true
    }

    /// Returns `true` if the layout is contiguous in C or Fortran order.
    pub fn is_contiguous(&self) -> (r: bool)
        ensures
            r == (c_contiguous(self@) || f_contiguous(self@)),
    {
        self.is_c_contiguous() || self.is_f_contiguous()
    }
}

impl Clone for Layout {
    fn clone(&self) -> (r: Self)
        ensures
            r@ == self@,
    {
        proof {
            use_type_invariant(self);
        }
        Layout { shape: self.shape.clone(), strides: self.strides.clone(), offset: self.offset, itemsize: self.itemsize }
    }
}

/// Entry `k` of `axes` is out of range or repeats an earlier entry.
pub open spec fn permute_bad_at(axes: Seq<usize>, ndim: nat, k: int) -> bool {
    axes[k] >= ndim || exists|j: int| 0 <= j < k && axes[j] == axes[k]
}

/// `axes` is a permutation of `0..ndim`.
pub open spec fn is_axis_permutation(axes: Seq<usize>, ndim: nat) -> bool {
    axes.len() == ndim && forall|k: int| 0 <= k < axes.len() ==> !#[trigger] permute_bad_at(axes, ndim, k)
}

/// The message of the error raised for a repeated axis.
pub open spec fn permute_dup_text(ax: nat) -> Seq<char> {
    "Layout::permute: axis "@ + decimal(ax) + " appears more than once"@
}

/// `e` is the error that `permute` reports for `axes` on `ndim` dimensions.
pub open spec fn permute_error(e: MohuError, axes: Seq<usize>, ndim: nat) -> bool {
    if axes.len() != ndim {
        e == MohuError::DimensionMismatch { expected: ndim as usize, got: axes.len() as usize }
    } else {
        exists|k: int|
            0 <= k < axes.len() && #[trigger] permute_bad_at(axes, ndim, k) && (forall|j: int|
                0 <= j < k ==> !permute_bad_at(axes, ndim, j)) && if axes[k] >= ndim {
                e matches MohuError::AxisOutOfRange { axis, ndim: n, valid } && axis == axes[k] as i64 && n
                    == ndim && valid@ == half_open_text(ndim)
            } else {
                e matches MohuError::Internal(m) && m@ == permute_dup_text(axes[k] as nat)
            }
    }
}

/// The message of the error raised when squeezing an axis whose size is not 1.
pub open spec fn squeeze_axis_text(axis: nat, size: nat) -> Seq<char> {
    "squeeze_axis("@ + decimal(axis) + "): axis has size "@ + decimal(size) + ", not 1"@
}

/// Dimensions of the first `k` axes that are not 1.
pub open spec fn squeeze_shape(shape: Seq<usize>, k: int) -> Seq<usize>
    decreases k,
{
    if k <= 0 {
        Seq::empty()
    } else if shape[k - 1] != 1 {
        squeeze_shape(shape, k - 1).push(shape[k - 1])
    } else {
        squeeze_shape(shape, k - 1)
    }
}

/// Strides of the first `k` axes whose dimension is not 1.
pub open spec fn squeeze_strides(shape: Seq<usize>, strides: Seq<isize>, k: int) -> Seq<isize>
    decreases k,
{
    if k <= 0 {
        Seq::empty()
    } else if shape[k - 1] != 1 {
        squeeze_strides(shape, strides, k - 1).push(strides[k - 1])
    } else {
        squeeze_strides(shape, strides, k - 1)
    }
}

/// The contribution of one axis to the byte range of a layout.
pub open spec fn axis_span(dim: usize, stride: isize) -> int {
    if stride == 0 || dim == 0 {
        0
    } else {
        stride * ((dim as isize) - 1)
    }
}

/// The sum of the positive axis spans of the first `k` axes.
pub open spec fn span_up(shape: Seq<usize>, strides: Seq<isize>, k: int) -> int
    decreases k,
{
    if k <= 0 {
        0
    } else {
        let s = axis_span(shape[k - 1], strides[k - 1]);
        span_up(shape, strides, k - 1) + if s > 0 { s } else { 0 }
    }
}

/// The sum of the non-positive axis spans of the first `k` axes.
pub open spec fn span_down(shape: Seq<usize>, strides: Seq<isize>, k: int) -> int
    decreases k,
{
    if k <= 0 {
        0
    } else {
        let s = axis_span(shape[k - 1], strides[k - 1]);
        span_down(shape, strides, k - 1) + if s > 0 { 0 } else { s }
    }
}

/// Every step of computing the byte range stays within `isize`.
pub open spec fn byte_range_fits(v: LayoutView) -> bool {
    &&& v.offset <= isize::MAX
    &&& forall|k: int|
        0 <= k < v.shape.len() ==> {
            &&& (v.strides[k] != 0 && v.shape[k] != 0) ==> (v.shape[k] as isize) > isize::MIN
            &&& isize::MIN <= #[trigger] axis_span(v.shape[k], v.strides[k]) <= isize::MAX
            &&& v.offset + span_up(v.shape, v.strides, k + 1) <= isize::MAX
            &&& v.offset + span_down(v.shape, v.strides, k + 1) >= isize::MIN
        }
}

/// The lowest and highest byte offsets touched by a non-empty layout.
pub open spec fn byte_range_of(v: LayoutView) -> (usize, usize) {
    if shape_product(v.shape) == 0 {
        (v.offset, v.offset)
    } else {
        (
            (v.offset + span_down(v.shape, v.strides, v.shape.len() as int)) as usize,
            (v.offset + span_up(v.shape, v.strides, v.shape.len() as int)) as usize,
        )
    }
}

/// The arithmetic of slicing axis `axis` stays within `isize`.
pub open spec fn slice_fits(v: LayoutView, axis: int, start: usize, step: isize) -> bool {
    let p = (start as isize) * v.strides[axis];
    &&& v.offset <= isize::MAX
    &&& isize::MIN <= p <= isize::MAX
    &&& isize::MIN <= (v.offset as isize) + p <= isize::MAX
    &&& isize::MIN <= v.strides[axis] * step <= isize::MAX
}

impl Layout {
    /// Returns a layout with axes permuted: axis `i` of the result is axis
    /// `axes[i]` of `self`.
    ///
    /// Fails with `DimensionMismatch` when `axes` has the wrong length, else
    /// at the first entry that is out of range (`AxisOutOfRange`) or repeated
    /// (`Internal`).
    pub fn permute(&self, axes: &[usize]) -> (r: MohuResult<Self>)
        ensures
            r is Ok <==> is_axis_permutation(axes@, self@.shape.len()),
            r matches Ok(l) ==> l@ == layout_of(
                Seq::new(axes@.len(), |i: int| self@.shape[axes@[i] as int]),
                Seq::new(axes@.len(), |i: int| self@.strides[axes@[i] as int]),
                self@.offset,
                self@.itemsize,
            ),
            r matches Err(e) ==> permute_error(e, axes@, self@.shape.len()),
    {
        proof {
            use_type_invariant(self);
        }
        let ndim = self.ndim();
        if axes.len() != ndim {
            return Err(MohuError::DimensionMismatch { expected: ndim, got: axes.len() });
        }
        let mut seen: Vec<bool> = Vec::new();
        let mut j: usize = 0;
        while j < ndim
            invariant
                j <= ndim,
                seen@.len() == j,
                forall|k: int| 0 <= k < j ==> !#[trigger] seen@[k],
            decreases ndim - j,
        {
            seen.push(false);
            j = j + 1;
        }
        let mut k: usize = 0;
        while k < axes.len()
            invariant
                k <= axes@.len(),
                axes@.len() == ndim,
                ndim == self@.shape.len(),
                seen@.len() == ndim,
                forall|i: int| 0 <= i < k ==> !#[trigger] permute_bad_at(axes@, ndim as nat, i),
                forall|a: int|
                    0 <= a < ndim ==> (#[trigger] seen@[a] <==> exists|i: int| 0 <= i < k && axes@[i] == a),
            decreases axes@.len() - k,
        {
            let ax = axes[k];
            if ax >= ndim {
                proof {
                    assert(permute_bad_at(axes@, ndim as nat, k as int));
                }
                return Err(MohuError::AxisOutOfRange { axis: ax as i64, ndim, valid: half_open_string(ndim) });
            }
            if seen[ax] {
                let mut m = string_of("Layout::permute: axis ");
                push_decimal(&mut m, ax as u64);
                m.append(" appears more than once");
                proof {
                    assert(permute_bad_at(axes@, ndim as nat, k as int));
                }
                return Err(MohuError::Internal(m));
            }
            proof {
                assert(!permute_bad_at(axes@, ndim as nat, k as int));
            }
            seen.set(ax, true);
            proof {
                assert forall|a: int|
                    0 <= a < ndim implies (#[trigger] seen@[a] <==> exists|i: int| 0 <= i < k + 1 && axes@[i] == a) by {
                    if a == ax {
                        assert(axes@[k as int] == a);
                    }
                }
            }
            k = k + 1;
        }
        proof {
            assert forall|q: int| 0 <= q < axes@.len() implies #[trigger] axes@[q] < ndim by {
                assert(!permute_bad_at(axes@, ndim as nat, q));
            }
        }
        let sh = self.shape.as_slice();
        let st = self.strides.as_slice();
        let mut new_shape: Vec<usize> = Vec::new();
        let mut new_strides: Vec<isize> = Vec::new();
        let mut i: usize = 0;
        while i < axes.len()
            invariant
                i <= axes@.len(),
                axes@.len() == ndim,
                sh@ == self@.shape,
                st@ == self@.strides,
                sh@.len() == ndim,
                st@.len() == ndim,
                forall|q: int| 0 <= q < axes@.len() ==> #[trigger] axes@[q] < ndim,
                new_shape@ =~= Seq::new(i as nat, |q: int| self@.shape[axes@[q] as int]),
                new_strides@ =~= Seq::new(i as nat, |q: int| self@.strides[axes@[q] as int]),
            decreases axes@.len() - i,
        {
            new_shape.push(sh[axes[i]]);
            new_strides.push(st[axes[i]]);
            i = i + 1;
        }
        Ok(Layout {
            shape: ShapeVec::from_vec(new_shape),
            strides: StrideVec::from_vec(new_strides),
            offset: self.offset,
            itemsize: self.itemsize,
        })
    }

    /// Returns the transpose: the axis order reversed.
    pub fn transpose(&self) -> (r: Self)
        ensures
            r@ == layout_of(self@.shape.reverse(), self@.strides.reverse(), self@.offset, self@.itemsize),
    {
        proof {
            use_type_invariant(self);
        }
        let n = self.ndim();
        if n <= 1 {
            proof {
                assert(self@.shape.reverse() =~= self@.shape);
                assert(self@.strides.reverse() =~= self@.strides);
            }
            return self.clone();
        }
        let mut axes: Vec<usize> = Vec::new();
        let mut i: usize = 0;
        while i < n
            invariant
                i <= n,
                axes@ =~= Seq::new(i as nat, |q: int| (n - 1 - q) as usize),
            decreases n - i,
        {
            axes.push(n - 1 - i);
            i = i + 1;
        }
        proof {
            assert forall|k: int| 0 <= k < axes@.len() implies !#[trigger] permute_bad_at(axes@, n as nat, k) by {
                assert(axes@[k] == n - 1 - k);
                assert forall|j: int| 0 <= j < k implies axes@[j] != axes@[k] by {
                    assert(axes@[j] == n - 1 - j);
                }
            }
        }
        let r = self.permute(axes.as_slice());
        match r {
            Ok(l) => {
                proof {
                    assert(l@.shape =~= self@.shape.reverse());
                    assert(l@.strides =~= self@.strides.reverse());
                }
                l
            },
            Err(_) => {
                proof {
                    assert(false);
                }
                self.clone()
            },
        }
    }

    /// Inserts a new axis of size 1 (with stride `itemsize`) at `axis`.
    ///
    /// Fails with `AxisOutOfRange` when `axis > ndim`.
    pub fn expand_dims(&self, axis: usize) -> (r: MohuResult<Self>)
        ensures
            axis <= self@.shape.len() ==> (r matches Ok(l) && l@ == layout_of(
                self@.shape.insert(axis as int, 1),
                self@.strides.insert(axis as int, self@.itemsize as isize),
                self@.offset,
                self@.itemsize,
            )),
            axis > self@.shape.len() ==> (r matches Err(e) && e matches MohuError::AxisOutOfRange {
                axis: a,
                ndim,
                valid,
            } && a == axis as i64 && ndim == self@.shape.len() && valid@ == closed_text(ndim as nat)),
    {
        proof {
            use_type_invariant(self);
        }
        let ndim = self.ndim();
        if axis > ndim {
            return Err(MohuError::AxisOutOfRange { axis: axis as i64, ndim, valid: closed_string(ndim) });
        }
        let sh = self.shape.as_slice();
        let st = self.strides.as_slice();
        let ghost ins = self.itemsize as isize;
        let mut new_shape: Vec<usize> = Vec::new();
        let mut new_strides: Vec<isize> = Vec::new();
        let mut i: usize = 0;
        while i < ndim
            invariant
                i <= ndim,
                axis <= ndim,
                ndim == self@.shape.len(),
                sh@ == self@.shape,
                st@ == self@.strides,
                st@.len() == ndim,
                ins == self.itemsize as isize,
                i <= axis ==> new_shape@ =~= sh@.subrange(0, i as int),
                i <= axis ==> new_strides@ =~= st@.subrange(0, i as int),
                i > axis ==> new_shape@ =~= sh@.subrange(0, axis as int).push(1) + sh@.subrange(axis as int, i as int),
                i > axis ==> new_strides@ =~= st@.subrange(0, axis as int).push(ins) + st@.subrange(axis as int, i as int),
            decreases ndim - i,
        {
            if i == axis {
                new_shape.push(1);
                new_strides.push(self.itemsize as isize);
            }
            new_shape.push(sh[i]);
            new_strides.push(st[i]);
            i = i + 1;
        }
        if axis == ndim {
            new_shape.push(1);
            new_strides.push(self.itemsize as isize);
        }
        proof {
            assert(new_shape@ =~= self@.shape.insert(axis as int, 1));
            assert(new_strides@ =~= self@.strides.insert(axis as int, self@.itemsize as isize));
        }
        Ok(Layout {
            shape: ShapeVec::from_vec(new_shape),
            strides: StrideVec::from_vec(new_strides),
            offset: self.offset,
            itemsize: self.itemsize,
        })
    }

    /// Removes every axis of size 1.
    pub fn squeeze(&self) -> (r: Self)
        ensures
            r@ == layout_of(
                squeeze_shape(self@.shape, self@.shape.len() as int),
                squeeze_strides(self@.shape, self@.strides, self@.shape.len() as int),
                self@.offset,
                self@.itemsize,
            ),
    {
        proof {
            use_type_invariant(self);
        }
        let sh = self.shape.as_slice();
        let st = self.strides.as_slice();
        let mut new_shape: Vec<usize> = Vec::new();
        let mut new_strides: Vec<isize> = Vec::new();
        let mut i: usize = 0;
        while i < sh.len()
            invariant
                i <= sh@.len(),
                sh@ == self@.shape,
                st@ == self@.strides,
                st@.len() == sh@.len(),
                new_shape@ == squeeze_shape(sh@, i as int),
                new_strides@ == squeeze_strides(sh@, st@, i as int),
                new_shape@.len() == new_strides@.len(),
            decreases sh@.len() - i,
        {
            if sh[i] != 1 {
                new_shape.push(sh[i]);
                new_strides.push(st[i]);
            }
            i = i + 1;
        }
        Layout {
            shape: ShapeVec::from_vec(new_shape),
            strides: StrideVec::from_vec(new_strides),
            offset: self.offset,
            itemsize: self.itemsize,
        }
    }

    /// Removes the size-1 axis at `axis`.
    ///
    /// Fails with `AxisOutOfRange` when `axis >= ndim` and with `Internal`
    /// when that axis does not have size 1.
    pub fn squeeze_axis(&self, axis: usize) -> (r: MohuResult<Self>)
        ensures
            axis >= self@.shape.len() ==> (r matches Err(e) && e matches MohuError::AxisOutOfRange {
                axis: a,
                ndim,
                valid,
            } && a == axis as i64 && ndim == self@.shape.len() && valid@ == half_open_text(ndim as nat)),
            axis < self@.shape.len() && self@.shape[axis as int] != 1 ==> (r matches Err(e)
                && e matches MohuError::Internal(m) && m@ == squeeze_axis_text(
                axis as nat,
                self@.shape[axis as int] as nat,
            )),
            axis < self@.shape.len() && self@.shape[axis as int] == 1 ==> (r matches Ok(l) && l@ == layout_of(
                self@.shape.remove(axis as int),
                self@.strides.remove(axis as int),
                self@.offset,
                self@.itemsize,
            )),
    {
        proof {
            use_type_invariant(self);
        }
        let ndim = self.ndim();
        if axis >= ndim {
            return Err(MohuError::AxisOutOfRange { axis: axis as i64, ndim, valid: half_open_string(ndim) });
        }
        let sh = self.shape.as_slice();
        let st = self.strides.as_slice();
        if sh[axis] != 1 {
            let mut m = string_of("squeeze_axis(");
            push_decimal(&mut m, axis as u64);
            m.append("): axis has size ");
            push_decimal(&mut m, sh[axis] as u64);
            m.append(", not 1");
            return Err(MohuError::Internal(m));
        }
        let mut new_shape: Vec<usize> = Vec::new();
        let mut new_strides: Vec<isize> = Vec::new();
        let mut i: usize = 0;
        while i < ndim
            invariant
                i <= ndim,
                axis < ndim,
                ndim == sh@.len(),
                sh@ == self@.shape,
                st@ == self@.strides,
                st@.len() == ndim,
                new_shape@ =~= sh@.remove(axis as int).take(if i <= axis { i as int } else { i - 1 }),
                new_strides@ =~= st@.remove(axis as int).take(if i <= axis { i as int } else { i - 1 }),
            decreases ndim - i,
        {
            if i != axis {
                new_shape.push(sh[i]);
                new_strides.push(st[i]);
            }
            i = i + 1;
        }
        proof {
            assert(sh@.remove(axis as int).take(ndim - 1) =~= sh@.remove(axis as int));
            assert(st@.remove(axis as int).take(ndim - 1) =~= st@.remove(axis as int));
        }
        Ok(Layout {
            shape: ShapeVec::from_vec(new_shape),
            strides: StrideVec::from_vec(new_strides),
            offset: self.offset,
            itemsize: self.itemsize,
        })
    }
}

impl Layout {
    /// Returns a C-contiguous layout of `new_shape` over the same data.
    ///
    /// Fails with `NonContiguous` when `self` is not C-contiguous and with
    /// `ReshapeIncompatible` when the element counts differ.
    pub fn reshape(&self, new_shape: &[usize]) -> (r: MohuResult<Self>)
        requires
            prefixes_fit(self@.shape, usize::MAX as int),
            prefixes_fit(new_shape@, usize::MAX as int),
        ensures
            !c_contiguous(self@) ==> r == Err::<Layout, MohuError>(MohuError::NonContiguous),
            c_contiguous(self@) && shape_product(self@.shape) != shape_product(new_shape@) ==> (r matches Err(e)
                && e matches MohuError::ReshapeIncompatible { src_len, dst_shape, dst_len } && src_len
                == shape_product(self@.shape) && dst_shape@ == new_shape@ && dst_len == shape_product(new_shape@)),
            c_contiguous(self@) && shape_product(self@.shape) == shape_product(new_shape@) ==> (r matches Ok(l)
                && l@ == layout_of(
                new_shape@,
                Seq::new(new_shape@.len(), |i: int| c_stride_acc(new_shape@, self@.itemsize, i + 1)),
                self@.offset,
                self@.itemsize,
            )),
    {
        if !self.is_c_contiguous() {
            return Err(MohuError::NonContiguous);
        }
        let src_len = self.size();
        let dst_len = product_of(new_shape);
        if src_len != dst_len {
            return Err(MohuError::ReshapeIncompatible { src_len, dst_shape: slice_to_vec(new_shape), dst_len });
        }
        let new_strides = c_strides(new_shape, self.itemsize);
        proof {
            assert(new_strides@ =~= Seq::new(new_shape@.len(), |i: int| c_stride_acc(new_shape@, self@.itemsize, i + 1)));
        }
        Ok(Layout { shape: ShapeVec::from_slice(new_shape), strides: new_strides, offset: self.offset, itemsize: self.itemsize })
    }

    /// Slices axis `axis` with `arg`, describing the sub-view without copying:
    /// the offset advances by `start` steps and the stride is multiplied by
    /// the step.
    ///
    /// Fails with `AxisOutOfRange` when `axis >= ndim` and with
    /// `ZeroSliceStep` for a zero step.
    pub fn slice_axis(&self, axis: usize, arg: SliceArg) -> (r: MohuResult<Self>)
        requires
            axis < self@.shape.len() ==> self@.shape[axis as int] <= i64::MAX,
            arg.step != Some(i64::MIN),
            axis < self@.shape.len() && slice_step(arg) != 0 ==> slice_fits(
                self@,
                axis as int,
                slice_start(arg, self@.shape[axis as int]),
                slice_step(arg) as isize,
            ),
        ensures
            axis >= self@.shape.len() ==> (r matches Err(e) && e matches MohuError::AxisOutOfRange {
                axis: a,
                ndim,
                valid,
            } && a == axis as i64 && ndim == self@.shape.len() && valid@ == half_open_text(ndim as nat)),
            axis < self@.shape.len() && slice_step(arg) == 0 ==> r == Err::<Layout, MohuError>(MohuError::ZeroSliceStep),
            axis < self@.shape.len() && slice_step(arg) != 0 ==> ({
                let dim = self@.shape[axis as int];
                let start = slice_start(arg, dim);
                let step = slice_step(arg) as isize;
                let stride = self@.strides[axis as int];
                r matches Ok(l) && l@ == layout_of(
                    self@.shape.update(axis as int, slice_count(arg, dim) as usize),
                    self@.strides.update(axis as int, (stride * step) as isize),
                    ((self@.offset as isize) + (start as isize) * stride) as usize,
                    self@.itemsize,
                )
            }),
    {
        proof {
            use_type_invariant(self);
        }
        let ndim = self.ndim();
        if axis >= ndim {
            return Err(MohuError::AxisOutOfRange { axis: axis as i64, ndim, valid: half_open_string(ndim) });
        }
        let dim = self.shape.as_slice()[axis];
        let (start, count, step) = arg.resolve(dim)?;
        let stride = self.strides.as_slice()[axis];
        let new_offset = (self.offset as isize + start as isize * stride) as usize;
        let new_stride = stride * step;
        let mut new_shape = self.shape.clone();
        let mut new_strides = slice_to_vec(self.strides.as_slice());
        new_shape.set(axis, count);
        new_strides.set(axis, new_stride);
        Ok(Layout {
            shape: new_shape,
            strides: StrideVec::from_vec(new_strides),
            offset: new_offset,
            itemsize: self.itemsize,
        })
    }

    /// Returns a layout broadcasting this one to `new_shape`: new leading
    /// axes and stretched size-1 axes get stride 0.
    ///
    /// Fails with `BroadcastError` when the shapes are incompatible.
    pub fn broadcast_to(&self, new_shape: &[usize]) -> (r: MohuResult<Self>)
        ensures
            r is Ok <==> broadcastable(self@.shape, self@.shape.len() as int, new_shape@),
            r matches Ok(l) ==> l@ == layout_of(
                new_shape@,
                broadcast_result(self@.shape, self@.strides, self@.shape.len() as int, new_shape@),
                self@.offset,
                self@.itemsize,
            ),
            r matches Err(e) ==> (e matches MohuError::BroadcastError { lhs, rhs } && lhs@ == self@.shape
                && rhs@ == new_shape@),
    {
        proof {
            use_type_invariant(self);
        }
        let new_strides = broadcast_strides(self.shape.as_slice(), self.strides.as_slice(), new_shape)?;
        Ok(Layout { shape: ShapeVec::from_slice(new_shape), strides: new_strides, offset: self.offset, itemsize: self.itemsize })
    }

    /// Byte offset of the element at `indices` from the buffer start.
    ///
    /// Fails with `TooManyIndices` when the index count differs from `ndim`,
    /// else with `IndexOutOfBounds` for the first out-of-range component.
    pub fn byte_offset(&self, indices: &[usize]) -> (r: MohuResult<usize>)
        requires
            in_bounds(indices@, self@.shape) ==> offset_fits(indices@, self@.strides, self@.offset),
        ensures
            indices@.len() != self@.shape.len() ==> r == Err::<usize, MohuError>(
                MohuError::TooManyIndices { given: indices@.len() as usize, ndim: self@.shape.len() as usize },
            ),
            r is Ok <==> in_bounds(indices@, self@.shape),
            r matches Ok(v) ==> v == ((self@.offset as isize) + offset_sum(
                indices@,
                self@.strides,
                indices@.len() as int,
            )) as usize,
            indices@.len() == self@.shape.len() ==> (r matches Err(e) ==> (e matches MohuError::IndexOutOfBounds {
                index,
                axis,
                size,
            } && axis < self@.shape.len() && indices@[axis as int] >= self@.shape[axis as int] && (forall|j: int|
                0 <= j < axis ==> #[trigger] indices@[j] < self@.shape[j]) && index == indices@[axis as int] as i64
                && size == self@.shape[axis as int])),
    {
        proof {
            use_type_invariant(self);
        }
        let sh = self.shape.as_slice();
        if indices.len() != sh.len() {
            return Err(MohuError::TooManyIndices { given: indices.len(), ndim: sh.len() });
        }
        let mut axis: usize = 0;
        while axis < indices.len()
            invariant
                axis <= indices@.len(),
                indices@.len() == sh@.len(),
                sh@ == self@.shape,
                forall|j: int| 0 <= j < axis ==> #[trigger] indices@[j] < sh@[j],
            decreases indices@.len() - axis,
        {
            if indices[axis] >= sh[axis] {
                return Err(MohuError::IndexOutOfBounds { index: indices[axis] as i64, axis, size: sh[axis] });
            }
            axis = axis + 1;
        }
        Ok(self.byte_offset_unchecked(indices))
    }

    /// Byte offset of the element at `indices`, without bounds checking.
    pub fn byte_offset_unchecked(&self, indices: &[usize]) -> (r: usize)
        requires
            indices@.len() == self@.shape.len(),
            offset_fits(indices@, self@.strides, self@.offset),
        ensures
            r == ((self@.offset as isize) + offset_sum(indices@, self@.strides, indices@.len() as int)) as usize,
    {
        proof {
            use_type_invariant(self);
        }
        let off = byte_offset(indices, self.strides.as_slice(), self.offset);
        off as usize
    }

    /// `(min_byte_offset, max_byte_offset)` over all elements of the layout;
    /// `(offset, offset)` when it holds no element.
    pub fn byte_range(&self) -> (r: (usize, usize))
        requires
            prefixes_fit(self@.shape, usize::MAX as int),
            byte_range_fits(self@),
        ensures
            r == byte_range_of(self@),
    {
        proof {
            use_type_invariant(self);
        }
        if self.size() == 0 {
            return (self.offset, self.offset);
        }
        let sh = self.shape.as_slice();
        let st = self.strides.as_slice();
        let mut lo: isize = self.offset as isize;
        let mut hi: isize = self.offset as isize;
        let mut k: usize = 0;
        while k < sh.len()
            invariant
                k <= sh@.len(),
                sh@ == self@.shape,
                st@ == self@.strides,
                st@.len() == sh@.len(),
                byte_range_fits(self@),
                lo == self@.offset + span_down(sh@, st@, k as int),
                hi == self@.offset + span_up(sh@, st@, k as int),
            decreases sh@.len() - k,
        {
            let dim = sh[k];
            let stride = st[k];
            proof {
                assert(isize::MIN <= axis_span(sh@[k as int], st@[k as int]) <= isize::MAX);
                assert((st@[k as int] != 0 && sh@[k as int] != 0) ==> (sh@[k as int] as isize) > isize::MIN);
            }
            if stride == 0 || dim == 0 {
                k = k + 1;
                continue;
            }
            let span = stride * (dim as isize - 1);
            if span > 0 {
                hi = hi + span;
            } else {
                lo = lo + span;
            }
            k = k + 1;
        }
        (lo as usize, hi as usize)
    }

    /// The byte span from the first to the last element, including the last
    /// element's bytes; 0 when the layout holds no element.
    pub fn span(&self) -> (r: usize)
        requires
            prefixes_fit(self@.shape, usize::MAX as int),
            byte_range_fits(self@),
            shape_product(self@.shape) != 0 ==> byte_range_of(self@).0 <= byte_range_of(self@).1,
            shape_product(self@.shape) != 0 ==> byte_range_of(self@).1 - byte_range_of(self@).0 + self@.itemsize
                <= usize::MAX,
        ensures
            r == if shape_product(self@.shape) == 0 {
                0
            } else {
                byte_range_of(self@).1 - byte_range_of(self@).0 + self@.itemsize
            },
    {
        if self.size() == 0 {
            return 0;
        }
        let (lo, hi) = self.byte_range();
        hi - lo + self.itemsize
    }

    /// Returns `true` if the byte ranges of `self` and `other` (each including
    /// its last element's bytes) intersect; `false` when either is empty.
    pub fn overlaps_with(&self, other: &Layout) -> (r: bool)
        requires
            prefixes_fit(self@.shape, usize::MAX as int),
            prefixes_fit(other@.shape, usize::MAX as int),
            shape_product(self@.shape) != 0 && shape_product(other@.shape) != 0 ==> {
                &&& byte_range_fits(self@)
                &&& byte_range_fits(other@)
                &&& byte_range_of(self@).1 + self@.itemsize <= usize::MAX
                &&& byte_range_of(other@).1 + other@.itemsize <= usize::MAX
            },
        ensures
            r == (shape_product(self@.shape) != 0 && shape_product(other@.shape) != 0 && byte_range_of(self@).0
                < byte_range_of(other@).1 + other@.itemsize && byte_range_of(other@).0 < byte_range_of(self@).1
                + self@.itemsize),
    {
        if self.size() == 0 || other.size() == 0 {
            return false;
        }
        let (lo1, hi1) = self.byte_range();
        let (lo2, hi2) = other.byte_range();
        let hi1 = hi1 + self.itemsize;
        let hi2 = hi2 + other.itemsize;
        lo1 < hi2 && lo2 < hi1
    }

    /// A C-contiguous layout of the same shape at offset 0, for a fresh copy.
    pub fn to_c_contiguous(&self) -> (r: Self)
        ensures
            r@ == layout_of(
                self@.shape,
                Seq::new(self@.shape.len(), |i: int| c_stride_acc(self@.shape, self@.itemsize, i + 1)),
                0,
                self@.itemsize,
            ),
    {
        let strides = c_strides(self.shape.as_slice(), self.itemsize);
        proof {
            assert(strides@ =~= Seq::new(self@.shape.len(), |i: int| c_stride_acc(self@.shape, self@.itemsize, i + 1)));
        }
        Layout { shape: self.shape.clone(), strides, offset: 0, itemsize: self.itemsize }
    }

    /// Normalises an axis index, counting negative values from the end.
    ///
    /// Fails with `AxisOutOfRange` outside `-ndim..ndim`.
    pub fn normalise_axis(&self, axis: i64) -> (r: MohuResult<usize>)
        requires
            self@.shape.len() <= i64::MAX,
        ensures
            ({
                let n = self@.shape.len() as int;
                let a = if axis < 0 { axis + n } else { axis as int };
                &&& 0 <= a < n ==> r == Ok::<usize, MohuError>(a as usize)
                &&& !(0 <= a < n) ==> (r matches Err(e) && e matches MohuError::AxisOutOfRange {
                    axis: ax,
                    ndim,
                    valid,
                } && ax == axis && ndim == n && valid@ == signed_range_text(n))
            }),
    {
        let ndim = self.ndim() as i64;
        let a = if axis < 0 { axis + ndim } else { axis };
        if a < 0 || a >= ndim {
            let mut v = string_of("-");
            push_decimal_i64(&mut v, ndim);
            v.append("..");
            push_decimal_i64(&mut v, ndim);
            return Err(MohuError::AxisOutOfRange { axis, ndim: self.ndim(), valid: v });
        }
        Ok(a as usize)
    }
}

/// Product of a list of dimensions.
fn product_of(s: &[usize]) -> (r: usize)
    requires
        prefixes_fit(s@, usize::MAX as int),
    ensures
        r == shape_product(s@),
{
    let n = s.len();
    let mut total: usize = 1;
    let mut i: usize = 0;
    proof {
        assert(s@.take(0) =~= Seq::<usize>::empty());
    }
    while i < n
        invariant
            i <= n,
            n == s@.len(),
            prefixes_fit(s@, usize::MAX as int),
            total == shape_product(s@.take(i as int)),
        decreases n - i,
    {
        proof {
            lemma_take_step(s@, i as int);
            assert(shape_product(s@.take(i + 1)) <= usize::MAX);
        }
        total = total * s[i];
        i = i + 1;
    }
    proof {
        assert(s@.take(n as int) =~= s@);
    }
    total
}

pub(crate) fn usize_slices_equal(a: &[usize], b: &[usize]) -> (r: bool)
    ensures
        r == (a@ == b@),
{
    if a.len() != b.len() {
        return false;
    }
    let mut i: usize = 0;
    while i < a.len()
        invariant
            i <= a@.len(),
            a@.len() == b@.len(),
            forall|k: int| 0 <= k < i ==> #[trigger] a@[k] == b@[k],
        decreases a@.len() - i,
    {
        if a[i] != b[i] {
            return false;
        }
        i = i + 1;
    }
    proof {
        assert(a@ =~= b@);
    }
    true
}

fn isize_slices_equal(a: &[isize], b: &[isize]) -> (r: bool)
    ensures
        r == (a@ == b@),
{
    if a.len() != b.len() {
        return false;
    }
    let mut i: usize = 0;
    while i < a.len()
        invariant
            i <= a@.len(),
            a@.len() == b@.len(),
            forall|k: int| 0 <= k < i ==> #[trigger] a@[k] == b@[k],
        decreases a@.len() - i,
    {
        if a[i] != b[i] {
            return false;
        }
        i = i + 1;
    }
    proof {
        assert(a@ =~= b@);
    }
    true
}

impl PartialEq for Layout {
    fn eq(&self, other: &Self) -> (r: bool) {
        usize_slices_equal(self.shape.as_slice(), other.shape.as_slice())
            && isize_slices_equal(self.strides.as_slice(), other.strides.as_slice())
            && self.offset == other.offset && self.itemsize == other.itemsize
    }
}

impl vstd::std_specs::cmp::PartialEqSpecImpl for Layout {
    open spec fn obeys_eq_spec() -> bool {
        true
    }

    open spec fn eq_spec(&self, other: &Self) -> bool {
        self@ == other@
    }
}

impl Eq for Layout {

}


/// A negative bound counts from the end: a start or stop `v < 0` with
/// `v + dim >= 0` resolves exactly as the bound `v + dim`, whatever the
/// other bound and the step (Python's `x[a:-1]` is `x[a:len(x) - 1]`).
pub proof fn lemma_negative_bounds_count_from_end(arg: SliceArg, dim: usize, v: i64)
    requires
        dim <= i64::MAX,
        v < 0,
        v + dim >= 0,
    ensures
        spec_resolve(SliceArg { start: Some(v), ..arg }, dim) == spec_resolve(
            SliceArg { start: Some((v + dim) as i64), ..arg },
            dim,
        ),
        spec_resolve(SliceArg { stop: Some(v), ..arg }, dim) == spec_resolve(
            SliceArg { stop: Some((v + dim) as i64), ..arg },
            dim,
        ),
{
}

/// Omitted bounds are the ends of the axis in the step's direction: for a
/// forward step a missing start is 0 and a missing stop is `dim`; for a
/// backward step a missing start is the last index (-1) and a missing stop
/// lies before the first index (`-dim - 1`).
pub proof fn lemma_default_bounds(arg: SliceArg, dim: usize)
    requires
        dim <= i64::MAX,
    ensures
        slice_step(arg) > 0 && arg.start is None ==> spec_resolve(arg, dim) == spec_resolve(
            SliceArg { start: Some(0i64), ..arg },
            dim,
        ),
        slice_step(arg) > 0 && arg.stop is None ==> spec_resolve(arg, dim) == spec_resolve(
            SliceArg { stop: Some(dim as i64), ..arg },
            dim,
        ),
        slice_step(arg) < 0 && arg.start is None ==> spec_resolve(arg, dim) == spec_resolve(
            SliceArg { start: Some(-1i64), ..arg },
            dim,
        ),
        slice_step(arg) < 0 && arg.stop is None ==> spec_resolve(arg, dim) == spec_resolve(
            SliceArg { stop: Some((-(dim as int) - 1) as i64), ..arg },
            dim,
        ),
{
}

/// A bound at or past the end of the axis clamps to it: for a forward step
/// a stop `v >= dim` resolves as `dim`, and a start `v >= dim` selects
/// nothing.
pub proof fn lemma_bounds_clamp_at_end(arg: SliceArg, dim: usize, v: i64)
    requires
        dim <= i64::MAX,
        v >= dim,
        slice_step(arg) > 0,
    ensures
        spec_resolve(SliceArg { stop: Some(v), ..arg }, dim) == spec_resolve(
            SliceArg { stop: Some(dim as i64), ..arg },
            dim,
        ),
        slice_count(SliceArg { start: Some(v), ..arg }, dim) == 0,
{
}

} // verus!

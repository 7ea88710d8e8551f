//! Stride arithmetic, N-dimensional index conversion and iteration, and
//! broadcast utilities.
//!
//! Strides are always in bytes.  A stride of 0 marks a broadcast axis.
use vstd::prelude::*;
use vstd::slice::slice_to_vec;
use crate::error::{MohuError, MohuResult};
use crate::shapevec::{ShapeVec, StrideVec};

verus! {

// ─── Mathematical model ──────────────────────────────────────────────────────

/// `x` clamped into the range of `isize`.
pub open spec fn isize_sat(x: int) -> isize {
    if x > isize::MAX {
        isize::MAX
    } else if x < isize::MIN {
        isize::MIN
    } else {
        x as isize
    }
}

/// Product of all dimensions (1 for an empty shape).
pub open spec fn shape_product(s: Seq<usize>) -> int
    decreases s.len(),
{
    if s.len() == 0 {
        1
    } else {
        shape_product(s.drop_last()) * s.last()
    }
}

/// The running stride of C order: `itemsize` times the dimensions from `k`
/// onwards, each product step saturating at the bounds of `isize`.
pub open spec fn c_stride_acc(shape: Seq<usize>, itemsize: usize, k: int) -> isize
    decreases shape.len() - k,
{
    if k < 0 || k >= shape.len() {
        itemsize as isize
    } else {
        isize_sat(c_stride_acc(shape, itemsize, k + 1) * (shape[k] as isize))
    }
}

/// The running stride of Fortran order: `itemsize` times the first `k`
/// dimensions, each product step saturating at the bounds of `isize`.
pub open spec fn f_stride_acc(shape: Seq<usize>, itemsize: usize, k: int) -> isize
    decreases k,
{
    if k <= 0 || k > shape.len() {
        itemsize as isize
    } else {
        isize_sat(f_stride_acc(shape, itemsize, k - 1) * (shape[k - 1] as isize))
    }
}

/// Every prefix product of the shape is at most `bound`.
pub open spec fn prefixes_fit(s: Seq<usize>, bound: int) -> bool {
    forall|k: int| 0 <= k <= s.len() ==> #[trigger] shape_product(s.take(k)) <= bound
}

/// The prefix length at which the running product first exceeds `isize::MAX`.
pub open spec fn first_overflow_index(s: Seq<usize>) -> int {
    choose|k: int|
        1 <= k <= s.len() && shape_product(s.take(k)) > isize::MAX && forall|j: int|
            0 <= j < k ==> #[trigger] shape_product(s.take(j)) <= isize::MAX
}

/// The error reported for a shape whose element count does not fit:
/// `max` is `usize::MAX` when the first overflowing prefix product leaves
/// `usize`, else `isize::MAX`.
pub open spec fn overflow_error(s: Seq<usize>) -> MohuError {
    MohuError::ShapeOverflow {
        max: if shape_product(s.take(first_overflow_index(s))) > usize::MAX {
            usize::MAX
        } else {
            isize::MAX as usize
        },
    }
}

/// The outcome of [`shape_size`] on a shape.
pub open spec fn spec_shape_size(s: Seq<usize>) -> MohuResult<usize> {
    if prefixes_fit(s, isize::MAX as int) {
        Ok(shape_product(s) as usize)
    } else {
        Err(overflow_error(s))
    }
}

// ─── Lemmas ──────────────────────────────────────────────────────────────────

/// A product of dimensions is never negative.
pub proof fn lemma_shape_product_nonneg(s: Seq<usize>)
    ensures
        shape_product(s) >= 0,
    decreases s.len(),
{
    if s.len() > 0 {
        lemma_shape_product_nonneg(s.drop_last());
        let p = shape_product(s.drop_last());
        let d = s.last() as int;
        assert(p * d >= 0) by (nonlinear_arith)
            requires
                p >= 0,
                d >= 0,
        ;
    }
}

/// Extending a prefix by one dimension multiplies its product by that dimension.
pub proof fn lemma_take_step(s: Seq<usize>, k: int)
    requires
        0 <= k < s.len(),
    ensures
        shape_product(s.take(k + 1)) == shape_product(s.take(k)) * s[k],
{
    assert(s.take(k + 1).drop_last() =~= s.take(k));
}

proof fn lemma_sat_mul(a: isize, b: isize)
    ensures
        (a * b > isize::MAX || a * b < isize::MIN) ==> ((a < 0) == (b < 0) ==> a * b > isize::MAX),
        (a * b > isize::MAX || a * b < isize::MIN) ==> ((a < 0) != (b < 0) ==> a * b < isize::MIN),
{
    assert((a < 0) == (b < 0) ==> a * b >= 0) by (nonlinear_arith);
    assert((a < 0) != (b < 0) ==> a * b <= 0) by (nonlinear_arith);
}

/// `a * b`, saturating at the bounds of `isize`.
fn saturating_mul_isize(a: isize, b: isize) -> (r: isize)
    ensures
        r == isize_sat(a * b),
{
    proof {
        lemma_sat_mul(a, b);
    }
    match a.checked_mul(b) {
        Some(v) => v,
        None => {
            if (a < 0) == (b < 0) {
                isize::MAX
            } else {
                isize::MIN
            }
        },
    }
}

// ─── Stride computation ──────────────────────────────────────────────────────

/// Computes C-contiguous (row-major) byte strides for `shape`:
/// `strides[i] = itemsize * product(shape[i+1..])`, each multiplication
/// saturating at the bounds of `isize`.
pub fn c_strides(shape: &[usize], itemsize: usize) -> (r: StrideVec)
    ensures
        r@.len() == shape@.len(),
        forall|i: int| 0 <= i < shape@.len() ==> #[trigger] r@[i] == c_stride_acc(shape@, itemsize, i + 1),
{
    let ndim = shape.len();
    let mut strides: Vec<isize> = Vec::new();
    let mut j: usize = 0;
    while j < ndim
        invariant
            j <= ndim,
            strides@.len() == j,
        decreases ndim - j,
    {
        strides.push(0);
        j = j + 1;
    }
    let mut acc: isize = itemsize as isize;
    let mut i: usize = ndim;
    while i > 0
        invariant
            i <= ndim,
            ndim == shape@.len(),
            strides@.len() == ndim,
            acc == c_stride_acc(shape@, itemsize, i as int),
            forall|k: int| i <= k < ndim ==> #[trigger] strides@[k] == c_stride_acc(shape@, itemsize, k + 1),
        decreases i,
    {
        i = i - 1;
        strides.set(i, acc);
        acc = saturating_mul_isize(acc, shape[i] as isize);
    }
    StrideVec::from_vec(strides)
}

/// Computes Fortran-contiguous (column-major) byte strides for `shape`:
/// `strides[i] = itemsize * product(shape[..i])`, each multiplication
/// saturating at the bounds of `isize`.
pub fn f_strides(shape: &[usize], itemsize: usize) -> (r: StrideVec)
    ensures
        r@.len() == shape@.len(),
        forall|i: int| 0 <= i < shape@.len() ==> #[trigger] r@[i] == f_stride_acc(shape@, itemsize, i),
{
    let ndim = shape.len();
    let mut strides: Vec<isize> = Vec::new();
    let mut acc: isize = itemsize as isize;
    let mut i: usize = 0;
    while i < ndim
        invariant
            i <= ndim,
            ndim == shape@.len(),
            strides@.len() == i,
            acc == f_stride_acc(shape@, itemsize, i as int),
            forall|k: int| 0 <= k < i ==> #[trigger] strides@[k] == f_stride_acc(shape@, itemsize, k),
        decreases ndim - i,
    {
        strides.push(acc);
        acc = saturating_mul_isize(acc, shape[i] as isize);
        i = i + 1;
    }
    StrideVec::from_vec(strides)
}

/// Computes the number of elements of `shape`.
///
/// Fails with `ShapeOverflow` as soon as a running product exceeds
/// `isize::MAX` (with `max = usize::MAX` when the product left `usize`).
pub fn shape_size(shape: &[usize]) -> (r: MohuResult<usize>)
    ensures
        r == spec_shape_size(shape@),
{
    let mut total: usize = 1;
    let mut i: usize = 0;
    proof {
        assert(shape@.take(0) =~= Seq::<usize>::empty());
    }
    while i < shape.len()
        invariant
            i <= shape@.len(),
            total == shape_product(shape@.take(i as int)),
            forall|j: int| 0 <= j <= i ==> #[trigger] shape_product(shape@.take(j)) <= isize::MAX,
        decreases shape@.len() - i,
    {
        proof {
            lemma_take_step(shape@, i as int);
        }
        let next = total.checked_mul(shape[i]);
        match next {
            None => {
                proof {
                    let k = (i + 1) as int;
                    assert(shape_product(shape@.take(k)) > isize::MAX);
                    let f = first_overflow_index(shape@);
                    assert(1 <= k <= shape@.len() && shape_product(shape@.take(k)) > isize::MAX
                        && forall|j: int| 0 <= j < k ==> #[trigger] shape_product(shape@.take(j)) <= isize::MAX);
                    assert(f == k) by {
                        if f < k {
                            assert(shape_product(shape@.take(f)) <= isize::MAX);
                        } else if f > k {
                            assert(shape_product(shape@.take(k)) <= isize::MAX);
                        }
                    }
                    assert(!prefixes_fit(shape@, isize::MAX as int));
                }
                return Err(MohuError::ShapeOverflow { max: usize::MAX });
            },
            Some(t) => {
                total = t;
            },
        }
        if total > isize::MAX as usize {
            proof {
                let k = (i + 1) as int;
                let f = first_overflow_index(shape@);
                assert(1 <= k <= shape@.len() && shape_product(shape@.take(k)) > isize::MAX
                    && forall|j: int| 0 <= j < k ==> #[trigger] shape_product(shape@.take(j)) <= isize::MAX);
                assert(f == k) by {
                    if f < k {
                        assert(shape_product(shape@.take(f)) <= isize::MAX);
                    } else if f > k {
                        assert(shape_product(shape@.take(k)) <= isize::MAX);
                    }
                }
                assert(!prefixes_fit(shape@, isize::MAX as int));
            }
            return Err(MohuError::ShapeOverflow { max: isize::MAX as usize });
        }
        i = i + 1;
    }
    proof {
        assert(shape@.take(shape@.len() as int) =~= shape@);
    }
    Ok(total)
}

/// The outcome of [`contiguous_nbytes`]: `itemsize` for a scalar, else the
/// element count times `itemsize`, failing on overflow.
pub open spec fn spec_contiguous_nbytes(s: Seq<usize>, itemsize: usize) -> MohuResult<usize> {
    if s.len() == 0 {
        Ok(itemsize)
    } else {
        match spec_shape_size(s) {
            Ok(n) => if n * itemsize > usize::MAX {
                Err(MohuError::ShapeOverflow { max: usize::MAX })
            } else {
                Ok((n * itemsize) as usize)
            },
            Err(e) => Err(e),
        }
    }
}

/// Returns the number of bytes of a contiguous array of `shape`.
pub fn contiguous_nbytes(shape: &[usize], itemsize: usize) -> (r: MohuResult<usize>)
    ensures
        r == spec_contiguous_nbytes(shape@, itemsize),
{
    if shape.len() == 0 {
        return Ok(itemsize);
    }
    let n = shape_size(shape)?;
    match n.checked_mul(itemsize) {
        Some(b) => Ok(b),
        None => Err(MohuError::ShapeOverflow { max: usize::MAX }),
    }
}

// ─── Broadcast strides ───────────────────────────────────────────────────────

/// `src_shape` (aligned to the right, first `m` axes taken with their
/// strides) can be broadcast to `tgt`.
pub open spec fn broadcastable(src: Seq<usize>, m: int, tgt: Seq<usize>) -> bool {
    &&& src.len() <= tgt.len()
    &&& forall|a: int|
        0 <= a < m ==> (#[trigger] src[a] == tgt[tgt.len() - src.len() + a] || src[a] == 1)
}

/// The broadcast strides: 0 on new leading axes and on stretched axes,
/// the source stride where the dimensions agree.
pub open spec fn broadcast_result(src: Seq<usize>, strides: Seq<isize>, m: int, tgt: Seq<usize>) -> Seq<isize> {
    let off = tgt.len() - src.len();
    Seq::new(
        (off + m) as nat,
        |i: int|
            if i < off {
                0isize
            } else if src[i - off] == tgt[i] {
                strides[i - off]
            } else {
                0isize
            },
    )
}

/// Computes strides for broadcasting `src_shape` / `src_strides` to
/// `tgt_shape` under NumPy rules; axes are paired from the left of the
/// source, as many as both source lists hold.
pub fn broadcast_strides(src_shape: &[usize], src_strides: &[isize], tgt_shape: &[usize]) -> (r: MohuResult<StrideVec>)
    ensures
        ({
            let m = if src_shape@.len() <= src_strides@.len() { src_shape@.len() as int } else { src_strides@.len() as int };
            &&& r is Ok <==> broadcastable(src_shape@, m, tgt_shape@)
            &&& r matches Ok(v) ==> v@ == broadcast_result(src_shape@, src_strides@, m, tgt_shape@)
            &&& r matches Err(e) ==> (e matches MohuError::BroadcastError { lhs, rhs } && lhs@ == src_shape@ && rhs@ == tgt_shape@)
        }),
{
    let src_ndim = src_shape.len();
    let tgt_ndim = tgt_shape.len();
    let m = if src_shape.len() <= src_strides.len() { src_shape.len() } else { src_strides.len() };
    if src_ndim > tgt_ndim {
        return Err(MohuError::BroadcastError { lhs: slice_to_vec(src_shape), rhs: slice_to_vec(tgt_shape) });
    }
    let offset = tgt_ndim - src_ndim;
    let mut out: Vec<isize> = Vec::new();
    let mut i: usize = 0;
    while i < offset
        invariant
            i <= offset,
            out@.len() == i,
            forall|k: int| 0 <= k < i ==> #[trigger] out@[k] == 0isize,
        decreases offset - i,
    {
        out.push(0);
        i = i + 1;
    }
    let ghost expected = broadcast_result(src_shape@, src_strides@, m as int, tgt_shape@);
    let mut axis: usize = 0;
    while axis < m
        invariant
            axis <= m,
            m <= src_shape@.len(),
            m <= src_strides@.len(),
            src_ndim == src_shape@.len(),
            tgt_ndim == tgt_shape@.len(),
            offset == tgt_ndim - src_ndim,
            src_ndim <= tgt_ndim,
            expected == broadcast_result(src_shape@, src_strides@, m as int, tgt_shape@),
            out@.len() == offset + axis,
            forall|k: int| 0 <= k < offset + axis ==> #[trigger] out@[k] == expected[k],
            forall|a: int| 0 <= a < axis ==> (#[trigger] src_shape@[a] == tgt_shape@[offset + a] || src_shape@[a] == 1),
        decreases m - axis,
    {
        let s_dim = src_shape[axis];
        let t_dim = tgt_shape[offset + axis];
        if s_dim == t_dim {
            out.push(src_strides[axis]);
        } else if s_dim == 1 {
            out.push(0);
        } else {
            return Err(MohuError::BroadcastError { lhs: slice_to_vec(src_shape), rhs: slice_to_vec(tgt_shape) });
        }
        axis = axis + 1;
    }
    proof {
        assert(out@ =~= expected);
    }
    Ok(StrideVec::from_vec(out))
}

// ─── Index conversion ────────────────────────────────────────────────────────

/// The C-order (row-major) linear position of the multi-index `idx` in a
/// shape: the last axis varies fastest.
pub open spec fn ravel(idx: Seq<usize>, shape: Seq<usize>) -> int
    decreases idx.len(),
{
    if idx.len() == 0 || shape.len() == 0 {
        0
    } else {
        ravel(idx.drop_last(), shape.drop_last()) * shape.last() + idx.last()
    }
}

/// The C-order multi-index at linear position `k` of a shape.
pub open spec fn c_index(shape: Seq<usize>, k: nat) -> Seq<usize>
    decreases shape.len(),
{
    if shape.len() == 0 {
        Seq::empty()
    } else {
        let d = shape.last() as nat;
        c_index(shape.drop_last(), k / d).push((k % d) as usize)
    }
}

/// Every component of `idx` is below the matching dimension.
pub open spec fn in_bounds(idx: Seq<usize>, shape: Seq<usize>) -> bool {
    idx.len() == shape.len() && forall|i: int| 0 <= i < idx.len() ==> #[trigger] idx[i] < shape[i]
}

/// A positive product means every dimension is positive.
pub proof fn lemma_product_pos_dims(s: Seq<usize>)
    requires
        shape_product(s) > 0,
    ensures
        forall|i: int| 0 <= i < s.len() ==> #[trigger] s[i] > 0,
        s.len() > 0 ==> shape_product(s.drop_last()) > 0,
    decreases s.len(),
{
    if s.len() > 0 {
        let p = shape_product(s.drop_last());
        let d = s.last() as int;
        lemma_shape_product_nonneg(s.drop_last());
        assert(p > 0 && d > 0) by (nonlinear_arith)
            requires
                p * d > 0,
                p >= 0,
                d >= 0,
        ;
        lemma_product_pos_dims(s.drop_last());
        assert forall|i: int| 0 <= i < s.len() implies #[trigger] s[i] > 0 by {
            if i < s.len() - 1 {
                assert(s[i] == s.drop_last()[i]);
            }
        }
    }
}

/// The position `k` of a shape with more than `k` elements decomposes into an
/// in-bounds multi-index whose C-order position is `k`.
pub proof fn lemma_c_index(shape: Seq<usize>, k: nat)
    requires
        k < shape_product(shape),
    ensures
        in_bounds(c_index(shape, k), shape),
        ravel(c_index(shape, k), shape) == k,
    decreases shape.len(),
{
    if shape.len() > 0 {
        lemma_product_pos_dims(shape);
        let pre = shape.drop_last();
        let d = shape.last() as nat;
        let p = shape_product(pre);
        assert(d > 0);
        let q = k / d;
        let r = k % d;
        assert(k == d * q + r && r < d) by (nonlinear_arith)
            requires
                d > 0,
                q == k / d,
                r == k % d,
        ;
        assert(q < p) by (nonlinear_arith)
            requires
                k < p * d,
                k == d * q + r,
                0 <= r < d,
                d > 0,
        ;
        lemma_c_index(pre, q);
        let ci = c_index(shape, k);
        assert(ci.drop_last() =~= c_index(pre, q));
        assert forall|i: int| 0 <= i < ci.len() implies #[trigger] ci[i] < shape[i] by {
            if i < ci.len() - 1 {
                assert(ci[i] == c_index(pre, q)[i]);
                assert(shape[i] == pre[i]);
            }
        }
        assert(shape.drop_last() =~= pre);
        assert(ci.last() == r);
        assert(ravel(ci, shape) == ravel(c_index(pre, q), pre) * d + r);
        assert(ravel(c_index(pre, q), pre) * d + r == k) by (nonlinear_arith)
            requires
                ravel(c_index(pre, q), pre) == q,
                k == d * q + r,
        ;
    }
}

/// The C-order position of an in-bounds multi-index lies in `[0, product)`.
pub proof fn lemma_ravel_bound(idx: Seq<usize>, shape: Seq<usize>)
    requires
        in_bounds(idx, shape),
    ensures
        0 <= ravel(idx, shape) < shape_product(shape),
    decreases idx.len(),
{
    if idx.len() > 0 {
        let pi = idx.drop_last();
        let ps = shape.drop_last();
        assert(in_bounds(pi, ps)) by {
            assert forall|i: int| 0 <= i < pi.len() implies #[trigger] pi[i] < ps[i] by {
                assert(pi[i] == idx[i] && ps[i] == shape[i]);
            }
        }
        lemma_ravel_bound(pi, ps);
        let r = ravel(pi, ps);
        let p = shape_product(ps);
        let d = shape.last() as int;
        let l = idx.last() as int;
        assert(l < d) by {
            assert(idx[idx.len() - 1] < shape[shape.len() - 1]);
        }
        assert(0 <= r * d + l < p * d) by (nonlinear_arith)
            requires
                0 <= r < p,
                0 <= l < d,
        ;
    }
}

/// Decomposing the C-order position of an in-bounds multi-index gives the
/// multi-index back.
pub proof fn lemma_c_index_of_ravel(idx: Seq<usize>, shape: Seq<usize>)
    requires
        in_bounds(idx, shape),
    ensures
        c_index(shape, ravel(idx, shape) as nat) =~= idx,
    decreases idx.len(),
{
    lemma_ravel_bound(idx, shape);
    if idx.len() > 0 {
        let pi = idx.drop_last();
        let ps = shape.drop_last();
        assert(in_bounds(pi, ps)) by {
            assert forall|i: int| 0 <= i < pi.len() implies #[trigger] pi[i] < ps[i] by {
                assert(pi[i] == idx[i] && ps[i] == shape[i]);
            }
        }
        lemma_c_index_of_ravel(pi, ps);
        lemma_ravel_bound(pi, ps);
        let r = ravel(pi, ps);
        let d = shape.last() as int;
        let l = idx.last() as int;
        assert(l < d) by {
            assert(idx[idx.len() - 1] < shape[shape.len() - 1]);
        }
        let k = r * d + l;
        assert(k / d == r && k % d == l) by (nonlinear_arith)
            requires
                k == r * d + l,
                0 <= l < d,
                r >= 0,
        ;
        let ci = c_index(shape, k as nat);
        assert(ci =~= c_index(ps, r as nat).push(l as usize));
    }
}

/// Converts a flat C-order position into a multi-index of `shape`.
///
/// Fails when the shape's element count overflows (see [`shape_size`]) or
/// when `flat` is not below a non-zero element count.
pub fn unravel_index(flat: usize, shape: &[usize]) -> (r: MohuResult<ShapeVec>)
    requires
        prefixes_fit(shape@, isize::MAX as int) ==> shape_product(shape@) > 0,
    ensures
        spec_shape_size(shape@) matches Err(e) ==> r == Err::<ShapeVec, MohuError>(e),
        prefixes_fit(shape@, isize::MAX as int) && flat >= shape_product(shape@) ==> r
            == Err::<ShapeVec, MohuError>(
            MohuError::IndexOutOfBounds {
                index: flat as i64,
                axis: 0,
                size: shape_product(shape@) as usize,
            },
        ),
        prefixes_fit(shape@, isize::MAX as int) && flat < shape_product(shape@) ==> (r matches Ok(v)
            && v@ == c_index(shape@, flat as nat)),
{
    let size = shape_size(shape)?;
    proof {
        assert(shape@.take(shape@.len() as int) =~= shape@);
        lemma_shape_product_nonneg(shape@);
    }
    if flat >= size && size > 0 {
        return Err(MohuError::IndexOutOfBounds { index: flat as i64, axis: 0, size });
    }
    proof {
        lemma_product_pos_dims(shape@);
    }
    let n = shape.len();
    let mut out: Vec<usize> = Vec::new();
    let mut j: usize = 0;
    while j < n
        invariant
            j <= n,
            out@.len() == j,
        decreases n - j,
    {
        out.push(0);
        j = j + 1;
    }
    let mut rem: usize = flat;
    let mut i: usize = n;
    proof {
        assert(shape@.take(n as int) =~= shape@);
        assert(out@.subrange(n as int, n as int) =~= Seq::<usize>::empty());
        assert(c_index(shape@, flat as nat) =~= c_index(shape@.take(n as int), rem as nat) + out@.subrange(n as int, n as int));
    }
    while i > 0
        invariant
            i <= n,
            n == shape@.len(),
            out@.len() == n,
            forall|k: int| 0 <= k < n ==> #[trigger] shape@[k] > 0,
            c_index(shape@, flat as nat) == c_index(shape@.take(i as int), rem as nat) + out@.subrange(i as int, n as int),
        decreases i,
    {
        let d = shape[i - 1];
        let ghost old_out = out@;
        let ghost old_rem = rem;
        out.set(i - 1, rem % d);
        rem = rem / d;
        proof {
            let t = shape@.take(i as int);
            assert(t.drop_last() =~= shape@.take(i - 1));
            assert(t.last() == d);
            assert(c_index(t, old_rem as nat) == c_index(shape@.take(i - 1), rem as nat).push((old_rem % d) as usize));
            assert(out@.subrange(i - 1, n as int) =~= seq![(old_rem % d) as usize] + old_out.subrange(i as int, n as int));
            assert(c_index(shape@, flat as nat) =~= c_index(shape@.take(i - 1), rem as nat) + out@.subrange(i - 1, n as int));
        }
        i = i - 1;
    }
    proof {
        assert(shape@.take(0) =~= Seq::<usize>::empty());
        assert(out@.subrange(0, n as int) =~= out@);
        assert(c_index(shape@, flat as nat) =~= out@);
    }
    Ok(ShapeVec::from_vec(out))
}

/// Converts a multi-index into its flat C-order position in `shape`.
///
/// Fails with `TooManyIndices` when the lengths differ, else with
/// `IndexOutOfBounds` for the first component that is not below its
/// dimension.
pub fn ravel_multi_index(indices: &[usize], shape: &[usize]) -> (r: MohuResult<usize>)
    requires
        indices@.len() == shape@.len() ==> forall|k: int|
            0 <= k <= indices@.len() && in_bounds(indices@.take(k), shape@.take(k))
                ==> #[trigger] ravel(indices@.take(k), shape@.take(k)) <= usize::MAX,
    ensures
        indices@.len() != shape@.len() ==> r == Err::<usize, MohuError>(
            MohuError::TooManyIndices { given: indices@.len() as usize, ndim: shape@.len() as usize },
        ),
        r is Ok <==> in_bounds(indices@, shape@),
        r matches Ok(v) ==> v == ravel(indices@, shape@),
        indices@.len() == shape@.len() ==> (r matches Err(e) ==> (e matches MohuError::IndexOutOfBounds {
            index,
            axis,
            size,
        } && axis < shape@.len() && indices@[axis as int] >= shape@[axis as int] && (forall|j: int|
            0 <= j < axis ==> #[trigger] indices@[j] < shape@[j]) && index == indices@[axis as int] as i64
            && size == shape@[axis as int])),
{
    if indices.len() != shape.len() {
        return Err(MohuError::TooManyIndices { given: indices.len(), ndim: shape.len() });
    }
    let n = shape.len();
    let mut flat: usize = 0;
    let mut axis: usize = 0;
    proof {
        assert(indices@.take(0) =~= Seq::<usize>::empty());
        assert(shape@.take(0) =~= Seq::<usize>::empty());
    }
    while axis < n
        invariant
            axis <= n,
            n == shape@.len(),
            n == indices@.len(),
            forall|k: int|
                0 <= k <= indices@.len() && in_bounds(indices@.take(k), shape@.take(k))
                    ==> #[trigger] ravel(indices@.take(k), shape@.take(k)) <= usize::MAX,
            forall|j: int| 0 <= j < axis ==> #[trigger] indices@[j] < shape@[j],
            flat == ravel(indices@.take(axis as int), shape@.take(axis as int)),
        decreases n - axis,
    {
        let idx = indices[axis];
        let dim = shape[axis];
        if idx >= dim {
            proof {
                assert(!in_bounds(indices@, shape@));
            }
            return Err(MohuError::IndexOutOfBounds { index: idx as i64, axis, size: dim });
        }
        proof {
            let k = axis + 1;
            let ti = indices@.take(k as int);
            let ts = shape@.take(k as int);
            assert(ti.drop_last() =~= indices@.take(axis as int));
            assert(ts.drop_last() =~= shape@.take(axis as int));
            assert(in_bounds(ti, ts)) by {
                assert forall|i: int| 0 <= i < ti.len() implies #[trigger] ti[i] < ts[i] by {
                    assert(ti[i] == indices@[i] && ts[i] == shape@[i]);
                }
            }
            assert(ravel(ti, ts) == flat * dim + idx);
            assert(ravel(ti, ts) <= usize::MAX);
            assert(flat * dim <= flat * dim + idx);
        }
        flat = flat * dim + idx;
        axis = axis + 1;
    }
    proof {
        assert(indices@.take(n as int) =~= indices@);
        assert(shape@.take(n as int) =~= shape@);
    }
    Ok(flat)
}

/// The smaller of two lengths: the number of pairs that zipping yields.
pub open spec fn zip_len(a: int, b: int) -> int {
    if a <= b {
        a
    } else {
        b
    }
}

/// Sum of `idx[j] * strides[j]` over the first `k` pairs.
pub open spec fn offset_sum(idx: Seq<usize>, strides: Seq<isize>, k: int) -> int
    decreases k,
{
    if k <= 0 {
        0
    } else {
        offset_sum(idx, strides, k - 1) + (idx[k - 1] as isize) * strides[k - 1]
    }
}

/// Every step of computing a byte offset stays within `isize`.
pub open spec fn offset_fits(idx: Seq<usize>, strides: Seq<isize>, base: usize) -> bool {
    forall|k: int|
        0 <= k < zip_len(idx.len() as int, strides.len() as int) ==> {
            &&& isize::MIN <= #[trigger] ((idx[k] as isize) * strides[k]) <= isize::MAX
            &&& isize::MIN <= (base as isize) + offset_sum(idx, strides, k + 1) <= isize::MAX
        }
}

/// Computes `base_offset + sum(indices[i] * strides[i])` over the pairs
/// that zipping the two lists yields.
pub fn byte_offset(indices: &[usize], strides: &[isize], base_offset: usize) -> (r: isize)
    requires
        offset_fits(indices@, strides@, base_offset),
    ensures
        r == (base_offset as isize) + offset_sum(
            indices@,
            strides@,
            zip_len(indices@.len() as int, strides@.len() as int),
        ),
{
    let m = if indices.len() <= strides.len() { indices.len() } else { strides.len() };
    let mut off: isize = base_offset as isize;
    let mut j: usize = 0;
    while j < m
        invariant
            j <= m,
            m == zip_len(indices@.len() as int, strides@.len() as int),
            offset_fits(indices@, strides@, base_offset),
            off == (base_offset as isize) + offset_sum(indices@, strides@, j as int),
        decreases m - j,
    {
        let t = indices[j] as isize * strides[j];
        off = off + t;
        j = j + 1;
    }
    off
}

// ─── NdIndexIter ─────────────────────────────────────────────────────────────

/// One step of a C-order counter: the last component that is not at its
/// maximum is incremented and every later component reset to 0.
pub open spec fn c_increment(idx: Seq<usize>, shape: Seq<usize>) -> Seq<usize>
    decreases idx.len(),
{
    if idx.len() == 0 || shape.len() == 0 {
        idx
    } else if idx.last() + 1 < shape.last() {
        idx.drop_last().push((idx.last() + 1) as usize)
    } else {
        c_increment(idx.drop_last(), shape.drop_last()).push(0)
    }
}

/// Whether a C-order counter step carries out of the first axis.
pub open spec fn c_carry(idx: Seq<usize>, shape: Seq<usize>) -> bool
    decreases idx.len(),
{
    if idx.len() == 0 || shape.len() == 0 {
        true
    } else if idx.last() + 1 < shape.last() {
        false
    } else {
        c_carry(idx.drop_last(), shape.drop_last())
    }
}

/// Stepping the counter from position `k` gives position `k + 1`, without
/// carrying out, as long as `k + 1` is a position of the shape.
pub proof fn lemma_c_increment(shape: Seq<usize>, k: nat)
    requires
        k + 1 < shape_product(shape),
    ensures
        c_index(shape, (k + 1) as nat) =~= c_increment(c_index(shape, k), shape),
        !c_carry(c_index(shape, k), shape),
    decreases shape.len(),
{
    if shape.len() > 0 {
        lemma_product_pos_dims(shape);
        let pre = shape.drop_last();
        let d = shape.last() as nat;
        let p = shape_product(pre);
        let q = k / d;
        let r = k % d;
        assert(k == d * q + r && r < d) by (nonlinear_arith)
            requires
                d > 0,
                q == k / d,
                r == k % d,
        ;
        let ci = c_index(shape, k);
        assert(ci.drop_last() =~= c_index(pre, q));
        assert(ci.last() == r);
        if r + 1 < d {
            assert((k + 1) / d == q && (k + 1) % d == r + 1) by (nonlinear_arith)
                requires
                    k == d * q + r,
                    r + 1 < d,
                    d > 0,
            ;
        } else {
            assert((k + 1) / d == q + 1 && (k + 1) % d == 0 && k + 1 == d * (q + 1)) by (nonlinear_arith)
                requires
                    k == d * q + r,
                    r + 1 == d,
                    d > 0,
            ;
            assert(q + 1 < p) by (nonlinear_arith)
                requires
                    k + 1 < p * d,
                    k + 1 == d * (q + 1),
                    d > 0,
            ;
            lemma_c_increment(pre, q);
        }
    } else {
        assert(shape_product(shape) == 1);
    }
}

/// Iterator over every multi-index of a shape in C (row-major) order.
pub struct NdIndexIter {
    shape: ShapeVec,
    current: ShapeVec,
    done: bool,
    count: usize,
    total: usize,
}

impl View for NdIndexIter {
    /// The shape and the number of indices yielded so far.
    type V = (Seq<usize>, nat);

    closed spec fn view(&self) -> (Seq<usize>, nat) {
        (self.shape@, self.count as nat)
    }
}

/// Steps `current` to the next C-order index of `shape`; returns `true` when
/// the step carried out of the first axis (every component is then 0).
fn advance_index(current: &mut ShapeVec, shape: &ShapeVec) -> (wrapped: bool)
    requires
        in_bounds(old(current)@, shape@),
    ensures
        final(current)@ == c_increment(old(current)@, shape@),
        wrapped == c_carry(old(current)@, shape@),
{
    let ghost orig = current@;
    let n = shape.len();
    if n == 0 {
        return true;
    }
    let mut axis: usize = n - 1;
    proof {
        assert(orig.take(n as int) =~= orig);
        assert(shape@.take(n as int) =~= shape@);
        assert(orig =~= orig.take(axis + 1) + Seq::new((n - 1 - axis) as nat, |i: int| 0usize));
    }
    loop
        invariant
            axis < n,
            n == shape@.len(),
            orig == old(current)@,
            in_bounds(orig, shape@),
            current@ =~= orig.take(axis + 1) + Seq::new((n - 1 - axis) as nat, |i: int| 0usize),
            c_increment(orig, shape@) =~= c_increment(orig.take(axis + 1), shape@.take(axis + 1)) + Seq::new(
                (n - 1 - axis) as nat,
                |i: int| 0usize,
            ),
            c_carry(orig, shape@) == c_carry(orig.take(axis + 1), shape@.take(axis + 1)),
        decreases axis,
    {
        let cur = current.as_slice()[axis];
        let dim = shape.as_slice()[axis];
        proof {
            assert(cur == orig[axis as int]);
            assert(cur < dim);
            let to = orig.take(axis + 1);
            let ts = shape@.take(axis + 1);
            assert(to.drop_last() =~= orig.take(axis as int));
            assert(ts.drop_last() =~= shape@.take(axis as int));
            assert(to.last() == cur && ts.last() == dim);
        }
        if cur + 1 < dim {
            let ghost before = current@;
            current.set(axis, cur + 1);
            proof {
                let to = orig.take(axis + 1);
                let ts = shape@.take(axis + 1);
                assert(c_increment(to, ts) == to.drop_last().push((cur + 1) as usize));
                assert(!c_carry(to, ts));
                assert(current@ =~= c_increment(to, ts) + Seq::new((n - 1 - axis) as nat, |i: int| 0usize));
            }
            return false;
        }
        current.set(axis, 0);
        proof {
            assert(Seq::new((n - 1 - axis + 1) as nat, |i: int| 0usize) =~= seq![0usize] + Seq::new(
                (n - 1 - axis) as nat,
                |i: int| 0usize,
            ));
        }
        if axis == 0 {
            proof {
                let to = orig.take(1);
                let ts = shape@.take(1);
                assert(to.drop_last() =~= Seq::<usize>::empty());
                assert(ts.drop_last() =~= Seq::<usize>::empty());
                assert(to.last() == cur && ts.last() == dim);
                assert(c_increment(to.drop_last(), ts.drop_last()) =~= Seq::<usize>::empty());
                assert(c_carry(to.drop_last(), ts.drop_last()));
                assert(c_increment(to, ts) =~= seq![0usize]);
                assert(c_carry(to, ts));
                assert(current@ =~= c_increment(to, ts) + Seq::new((n - 1) as nat, |i: int| 0usize));
            }
            return true;
        }
        axis = axis - 1;
    }
}

impl NdIndexIter {
    #[verifier::type_invariant]
    spec fn inv(self) -> bool {
        &&& self.current@.len() == self.shape@.len()
        &&& self.total == shape_product(self.shape@)
        &&& self.count <= self.total
        &&& self.done <==> self.count == self.total
        &&& !self.done ==> self.current@ == c_index(self.shape@, self.count as nat)
    }

    /// Creates an iterator over all indices of `shape` (none when a
    /// dimension is 0).
    pub fn new(shape: &[usize]) -> (r: Self)
        requires
            prefixes_fit(shape@, usize::MAX as int),
        ensures
            r@ == (shape@, 0nat),
    {
        let n = shape.len();
        let mut total: usize = 1;
        let mut i: usize = 0;
        proof {
            assert(shape@.take(0) =~= Seq::<usize>::empty());
        }
        while i < n
            invariant
                i <= n,
                n == shape@.len(),
                prefixes_fit(shape@, usize::MAX as int),
                total == shape_product(shape@.take(i as int)),
            decreases n - i,
        {
            proof {
                lemma_take_step(shape@, i as int);
                assert(shape_product(shape@.take(i + 1)) <= usize::MAX);
            }
            total = total * shape[i];
            i = i + 1;
        }
        proof {
            assert(shape@.take(n as int) =~= shape@);
        }
        let mut zeros: Vec<usize> = Vec::new();
        let mut j: usize = 0;
        while j < n
            invariant
                j <= n,
                zeros@.len() == j,
                forall|k: int| 0 <= k < j ==> #[trigger] zeros@[k] == 0usize,
            decreases n - j,
        {
            zeros.push(0);
            j = j + 1;
        }
        proof {
            if total > 0 {
                lemma_c_index(shape@, 0);
                assert(zeros@ =~= c_index(shape@, 0)) by {
                    lemma_zero_index(shape@);
                }
            }
        }
        NdIndexIter {
            shape: ShapeVec::from_slice(shape),
            current: ShapeVec::from_vec(zeros),
            done: total == 0,
            count: 0,
            total,
        }
    }

    /// Returns the total number of indices this iterator yields.
    pub fn total(&self) -> (r: usize)
        ensures
            r == shape_product(self@.0),
    {
        proof {
            use_type_invariant(self);
        }
        self.total
    }

    /// Yields the next multi-index in C order, or `None` when all have been
    /// yielded.
    pub fn next(&mut self) -> (r: Option<ShapeVec>)
        ensures
            final(self)@.0 == old(self)@.0,
            old(self)@.1 < shape_product(old(self)@.0) ==> (r matches Some(v) && v@ == c_index(
                old(self)@.0,
                old(self)@.1,
            ) && final(self)@.1 == old(self)@.1 + 1),
            old(self)@.1 >= shape_product(old(self)@.0) ==> (r is None && final(self)@.1 == old(self)@.1),
    {
        proof {
            use_type_invariant(&*self);
        }
        if self.done {
            return None;
        }
        let idx = self.current.clone();
        let count = self.count + 1;
        let mut current = self.current.clone();
        let shape = self.shape.clone();
        let mut done = false;
        if count < self.total {
            proof {
                lemma_c_index(shape@, self.count as nat);
                lemma_c_increment(shape@, self.count as nat);
            }
            done = advance_index(&mut current, &shape);
            proof {
                lemma_c_index(shape@, count as nat);
            }
        } else {
            done = true;
        }

        *self = NdIndexIter { shape, current, done, count, total: self.total };
        Some(idx)
    }

    /// Returns `(remaining, Some(remaining))`.
    pub fn size_hint(&self) -> (r: (usize, Option<usize>))
        ensures
            r.0 == shape_product(self@.0) - self@.1,
            r.1 == Some(r.0),
    {
        proof {
            use_type_invariant(self);
        }
        let remaining = self.total.saturating_sub(self.count);
        (remaining, Some(remaining))
    }
}

/// The first position of a shape decomposes into all zeros.
proof fn lemma_zero_index(shape: Seq<usize>)
    requires
        shape_product(shape) > 0,
    ensures
        c_index(shape, 0) =~= Seq::new(shape.len(), |i: int| 0usize),
    decreases shape.len(),
{
    if shape.len() > 0 {
        lemma_product_pos_dims(shape);
        lemma_zero_index(shape.drop_last());
        let d = shape.last() as nat;
        assert(0nat / d == 0 && 0nat % d == 0) by (nonlinear_arith)
            requires
                d > 0,
        ;
    }
}

// ─── StridedByteIter ─────────────────────────────────────────────────────────

/// Iterator over the byte offset of every element of a strided array, in
/// C order.
pub struct StridedByteIter {
    nd_iter: NdIndexIter,
    strides: StrideVec,
    base_offset: usize,
}

impl View for StridedByteIter {
    /// The shape, the number of offsets yielded, the strides and the base offset.
    type V = (Seq<usize>, nat, Seq<isize>, usize);

    closed spec fn view(&self) -> (Seq<usize>, nat, Seq<isize>, usize) {
        (self.nd_iter@.0, self.nd_iter@.1, self.strides@, self.base_offset)
    }
}

impl StridedByteIter {
    /// Creates an iterator that yields byte offsets for a strided array.
    pub fn new(shape: &[usize], strides: &[isize], base_offset: usize) -> (r: Self)
        requires
            prefixes_fit(shape@, usize::MAX as int),
        ensures
            r@ == (shape@, 0nat, strides@, base_offset),
    {
        StridedByteIter {
            nd_iter: NdIndexIter::new(shape),
            strides: StrideVec::from_slice(strides),
            base_offset,
        }
    }

    /// Yields the byte offset of the next element in C order.
    pub fn next(&mut self) -> (r: Option<usize>)
        requires
            old(self)@.1 < shape_product(old(self)@.0) ==> offset_fits(
                c_index(old(self)@.0, old(self)@.1),
                old(self)@.2,
                old(self)@.3,
            ),
        ensures
            final(self)@.0 == old(self)@.0,
            final(self)@.2 == old(self)@.2,
            final(self)@.3 == old(self)@.3,
            old(self)@.1 < shape_product(old(self)@.0) ==> ({
                let idx = c_index(old(self)@.0, old(self)@.1);
                &&& r == Some(
                    ((old(self)@.3 as isize) + offset_sum(
                        idx,
                        old(self)@.2,
                        zip_len(idx.len() as int, old(self)@.2.len() as int),
                    )) as usize,
                )
                &&& final(self)@.1 == old(self)@.1 + 1
            }),
            old(self)@.1 >= shape_product(old(self)@.0) ==> (r is None && final(self)@.1 == old(self)@.1),
    {
        let idx = self.nd_iter.next();
        match idx {
            None => None,
            Some(i) => {
                let off = byte_offset(i.as_slice(), self.strides.as_slice(), self.base_offset);
                Some(off as usize)
            },
        }
    }

    /// Returns `(remaining, Some(remaining))`.
    pub fn size_hint(&self) -> (r: (usize, Option<usize>))
        ensures
            r.0 == shape_product(self@.0) - self@.1,
            r.1 == Some(r.0),
    {
        self.nd_iter.size_hint()
    }
}

// ─── Stride validation ───────────────────────────────────────────────────────

/// The magnitude of a stride.
pub open spec fn abs_stride(x: isize) -> nat {
    if x < 0 {
        (-x) as nat
    } else {
        x as nat
    }
}

/// `isize::unsigned_abs`.
fn unsigned_abs(x: isize) -> (r: usize)
    ensures
        r == abs_stride(x),
{
    if x >= 0 {
        x as usize
    } else {
        (-(x + 1)) as usize + 1
    }
}

/// Axis `a` spans more than one element and its stride is not a multiple
/// of the element size.
pub open spec fn misaligned(shape: Seq<usize>, strides: Seq<isize>, itemsize: usize, a: int) -> bool {
    shape[a] > 1 && abs_stride(strides[a]) % (itemsize as nat) != 0
}

/// Every axis spanning more than one element has a stride that is a
/// multiple of the element size.
pub open spec fn strides_aligned(shape: Seq<usize>, strides: Seq<isize>, itemsize: usize) -> bool {
    forall|a: int|
        0 <= a < zip_len(shape.len() as int, strides.len() as int) ==> !#[trigger] misaligned(
            shape,
            strides,
            itemsize,
            a,
        )
}

/// `e` reports the first misaligned axis.
pub open spec fn first_misaligned_error(e: MohuError, shape: Seq<usize>, strides: Seq<isize>, itemsize: usize) -> bool {
    e matches MohuError::InvalidStride { axis, stride, element_size } && axis < zip_len(
        shape.len() as int,
        strides.len() as int,
    ) && misaligned(shape, strides, itemsize, axis as int) && (forall|j: int|
        0 <= j < axis ==> !#[trigger] misaligned(shape, strides, itemsize, j)) && stride == strides[axis as int]
        && element_size == itemsize
}

/// The `(stride, dim)` pairs of the first `k` axes whose stride is non-zero
/// and whose dimension exceeds 1, in axis order.
pub open spec fn moving_axes(shape: Seq<usize>, strides: Seq<isize>, k: int) -> Seq<(isize, usize)>
    decreases k,
{
    if k <= 0 {
        Seq::empty()
    } else {
        let prev = moving_axes(shape, strides, k - 1);
        if strides[k - 1] != 0 && shape[k - 1] > 1 {
            prev.push((strides[k - 1], shape[k - 1]))
        } else {
            prev
        }
    }
}

/// The product of the dimensions of the axes `a`: how many positions they
/// span.
pub open spec fn axes_count(a: Seq<(isize, usize)>) -> nat
    decreases a.len(),
{
    if a.len() == 0 {
        1
    } else {
        axes_count(a.drop_last()) * (a.last().1 as nat)
    }
}

/// The byte offset, from the first element, of position `k` in C order over
/// the axes `a` (each a stride and a dimension, the last varying fastest):
/// the sum of each axis's index times its stride.
pub open spec fn axes_offset(a: Seq<(isize, usize)>, k: nat) -> int
    decreases a.len(),
{
    if a.len() == 0 {
        0
    } else {
        let d = a.last().1 as nat;
        axes_offset(a.drop_last(), k / d) + (k % d) * a.last().0
    }
}

/// No two distinct positions over the axes `a` share a byte offset.
pub open spec fn axes_disjoint(a: Seq<(isize, usize)>) -> bool {
    forall|k1: nat, k2: nat|
        k1 < k2 < axes_count(a) ==> #[trigger] axes_offset(a, k1) != #[trigger] axes_offset(a, k2)
}

/// The moving axes of a shape/stride pair: those with a non-zero stride
/// spanning more than one element.
pub open spec fn all_moving_axes(shape: Seq<usize>, strides: Seq<isize>) -> Seq<(isize, usize)> {
    moving_axes(shape, strides, zip_len(shape.len() as int, strides.len() as int))
}

/// Two distinct elements share a byte address: two distinct index tuples
/// over the moving axes (broadcast axes, of stride 0, left out) reach the
/// same byte offset.
pub open spec fn has_overlap(shape: Seq<usize>, strides: Seq<isize>) -> bool {
    !axes_disjoint(all_moving_axes(shape, strides))
}

/// Every axis of `moving_axes` moves: a non-zero stride and a dimension
/// above 1.
proof fn lemma_moving_axes_move(shape: Seq<usize>, strides: Seq<isize>, k: int)
    requires
        0 <= k <= zip_len(shape.len() as int, strides.len() as int),
    ensures
        forall|j: int|
            0 <= j < moving_axes(shape, strides, k).len() ==> (#[trigger] moving_axes(shape, strides, k)[j]).1 > 1
                && moving_axes(shape, strides, k)[j].0 != 0,
        moving_axes(shape, strides, k).len() <= k,
    decreases k,
{
    if k > 0 {
        lemma_moving_axes_move(shape, strides, k - 1);
    }
}

/// Axes that each span at least two positions span at least `2^len`.
proof fn lemma_axes_count_grows(a: Seq<(isize, usize)>)
    requires
        forall|j: int| 0 <= j < a.len() ==> (#[trigger] a[j]).1 > 1,
    ensures
        axes_count(a) >= crate::scalar::two_pow(a.len()),
    decreases a.len(),
{
    if a.len() > 0 {
        let b = a.drop_last();
        assert forall|j: int| 0 <= j < b.len() implies (#[trigger] b[j]).1 > 1 by {
            assert(b[j] == a[j]);
        }
        lemma_axes_count_grows(b);
        let c = axes_count(b);
        let d = a.last().1 as nat;
        let t = crate::scalar::two_pow(b.len());
        assert(c * d >= t * 2) by (nonlinear_arith)
            requires
                c >= t,
                d >= 2,
        ;
    }
}

/// Every axis spans more than one position.
pub open spec fn axes_ok(a: Seq<(isize, usize)>) -> bool {
    forall|j: int| 0 <= j < a.len() ==> (#[trigger] a[j]).1 > 1
}

/// The byte span of the axes: the sum of each stride magnitude times one
/// less than its dimension.
pub open spec fn axes_span(a: Seq<(isize, usize)>) -> nat
    decreases a.len(),
{
    if a.len() == 0 {
        0
    } else {
        axes_span(a.drop_last()) + abs_stride(a.last().0) * ((a.last().1 - 1) as nat)
    }
}

/// The least offset over the axes: the sum of each negative stride times
/// one less than its dimension.
pub open spec fn axes_low(a: Seq<(isize, usize)>) -> int
    decreases a.len(),
{
    if a.len() == 0 {
        0
    } else {
        axes_low(a.drop_last()) + (if a.last().0 < 0 { a.last().0 * (a.last().1 - 1) } else { 0 })
    }
}

/// Each axis's stride magnitude exceeds `t` plus the span of the axes after
/// it: a position's offset then fixes its index on every axis.
pub open spec fn axes_dominate(a: Seq<(isize, usize)>, t: int) -> bool
    decreases a.len(),
{
    if a.len() == 0 {
        true
    } else {
        abs_stride(a.last().0) > t && axes_dominate(
            a.drop_last(),
            t + abs_stride(a.last().0) * ((a.last().1 - 1) as nat),
        )
    }
}

proof fn lemma_axes_ok_prefix(a: Seq<(isize, usize)>)
    requires
        a.len() > 0,
        axes_ok(a),
    ensures
        axes_ok(a.drop_last()),
{
    let b = a.drop_last();
    assert forall|j: int| 0 <= j < b.len() implies (#[trigger] b[j]).1 > 1 by {
        assert(b[j] == a[j]);
    }
}

/// A position below the count splits into a position over all but the last
/// axis and an index on the last axis.
proof fn lemma_split_position(c: nat, d: nat, k: nat)
    requires
        d > 0,
        k < c * d,
    ensures
        k / d < c,
        k % d < d,
        k == (k / d) * d + k % d,
{
    vstd::arithmetic::div_mod::lemma_fundamental_div_mod(k as int, d as int);
    assert(d * (k / d) == (k / d) * d) by (nonlinear_arith);
    assert(k / d < c) by (nonlinear_arith)
        requires
            k < c * d,
            d > 0,
            k == d * (k / d) + k % d,
            k % d >= 0,
    ;
}

/// Every position's offset lies within the span from the least offset.
proof fn lemma_offset_range(a: Seq<(isize, usize)>, k: nat)
    requires
        axes_ok(a),
        k < axes_count(a),
    ensures
        axes_low(a) <= axes_offset(a, k) <= axes_low(a) + axes_span(a),
    decreases a.len(),
{
    if a.len() > 0 {
        lemma_axes_ok_prefix(a);
        let b = a.drop_last();
        let s = a.last().0 as int;
        let d = a.last().1 as nat;
        assert(a[a.len() - 1] == a.last());
        lemma_split_position(axes_count(b), d, k);
        lemma_offset_range(b, k / d);
        let r = (k % d) as int;
        assert(0 <= r <= d - 1);
        if s < 0 {
            assert(s * (d - 1) <= r * s <= 0) by (nonlinear_arith)
                requires
                    0 <= r <= d - 1,
                    s < 0,
            ;
            assert(abs_stride(a.last().0) == -s);
            assert(-s * (d - 1) == -(s * (d - 1))) by (nonlinear_arith);
        } else {
            assert(0 <= r * s <= s * (d - 1)) by (nonlinear_arith)
                requires
                    0 <= r <= d - 1,
                    s >= 0,
            ;
            assert(abs_stride(a.last().0) == s);
        }
    }
}

/// Disjoint positions fit within the span: `count <= span + 1`.
proof fn lemma_pigeonhole(a: Seq<(isize, usize)>)
    requires
        axes_ok(a),
        axes_disjoint(a),
    ensures
        axes_count(a) <= axes_span(a) + 1,
{
    let n = axes_count(a) as int;
    let lo = axes_low(a);
    let f = |k: int| axes_offset(a, k as nat);
    let x = vstd::set_lib::set_int_range(0, n);
    let y = x.map(f);
    let z = vstd::set_lib::set_int_range(lo, lo + axes_span(a) + 1);
    vstd::set_lib::lemma_int_range(0, n);
    vstd::set_lib::lemma_int_range(lo, lo + axes_span(a) + 1);
    assert forall|k1: int, k2: int| x.contains(k1) && x.contains(k2) && #[trigger] f(k1) == #[trigger] f(k2) implies k1
        == k2 by {
        if k1 < k2 {
            assert(axes_offset(a, k1 as nat) != axes_offset(a, k2 as nat));
        } else if k2 < k1 {
            assert(axes_offset(a, k2 as nat) != axes_offset(a, k1 as nat));
        }
    }
    vstd::set_lib::lemma_map_size(x, y, f);
    assert forall|o: int| y.contains(o) implies z.contains(o) by {
        let k = choose|k: int| x.contains(k) && o == f(k);
        lemma_offset_range(a, k as nat);
    }
    vstd::set_lib::lemma_len_subset(y, z);
}

/// With the axes dominating `t`, two distinct positions' offsets differ by
/// more than `t`.
proof fn lemma_dominate(a: Seq<(isize, usize)>, t: int, k1: nat, k2: nat)
    requires
        axes_ok(a),
        t >= 0,
        axes_dominate(a, t),
        k1 < k2 < axes_count(a),
    ensures
        axes_offset(a, k1) - axes_offset(a, k2) > t || axes_offset(a, k2) - axes_offset(a, k1) > t,
    decreases a.len(),
{
    lemma_axes_ok_prefix(a);
    let b = a.drop_last();
    let s = a.last().0 as int;
    let m = abs_stride(a.last().0) as int;
    let d = a.last().1 as nat;
    assert(a[a.len() - 1] == a.last());
    lemma_split_position(axes_count(b), d, k1);
    lemma_split_position(axes_count(b), d, k2);
    let q1 = k1 / d;
    let q2 = k2 / d;
    let r1 = (k1 % d) as int;
    let r2 = (k2 % d) as int;
    assert(m == (if s >= 0 { s } else { -s }));
    if q1 == q2 {
        assert(r1 != r2);
        assert(r1 * s - r2 * s >= m || r2 * s - r1 * s >= m) by (nonlinear_arith)
            requires
                r1 != r2,
                m == (if s >= 0 { s } else { -s }),
        ;
    } else {
        let t2 = t + m * (d - 1);
        assert(m * (d - 1) >= 0) by (nonlinear_arith)
            requires
                m >= 0,
                d >= 1,
        ;
        if q1 < q2 {
            lemma_dominate(b, t2, q1, q2);
        } else {
            lemma_dominate(b, t2, q2, q1);
        }
        assert(-(m * (d - 1)) <= r1 * s - r2 * s <= m * (d - 1)) by (nonlinear_arith)
            requires
                0 <= r1 <= d - 1,
                0 <= r2 <= d - 1,
                m == (if s >= 0 { s } else { -s }),
        ;
    }
}

/// Axes dominating 0 are disjoint.
proof fn lemma_dominate_disjoint(a: Seq<(isize, usize)>)
    requires
        axes_ok(a),
        axes_dominate(a, 0),
    ensures
        axes_disjoint(a),
{
    assert forall|k1: nat, k2: nat| k1 < k2 < axes_count(a) implies #[trigger] axes_offset(a, k1)
        != #[trigger] axes_offset(a, k2) by {
        lemma_dominate(a, 0, k1, k2);
    }
}

/// The span is at most the number of axes times `2^127`: a stride's
/// magnitude is at most `2^63` and a dimension below `2^64`.
proof fn lemma_span_bound(a: Seq<(isize, usize)>)
    requires
        axes_ok(a),
    ensures
        axes_span(a) <= a.len() * 0x8000_0000_0000_0000_0000_0000_0000_0000,
    decreases a.len(),
{
    if a.len() > 0 {
        lemma_axes_ok_prefix(a);
        lemma_span_bound(a.drop_last());
        assert(a[a.len() - 1] == a.last());
        let m = abs_stride(a.last().0) as int;
        let d = a.last().1 as int;
        assert(m <= 0x8000_0000_0000_0000);
        assert(d <= 0xffff_ffff_ffff_ffff);
        assert(m * (d - 1) <= 0x8000_0000_0000_0000_0000_0000_0000_0000) by (nonlinear_arith)
            requires
                0 <= m <= 0x8000_0000_0000_0000,
                1 <= d <= 0xffff_ffff_ffff_ffff,
        ;
    }
}

proof fn lemma_two_pow_add(a: nat, b: nat)
    ensures
        crate::scalar::two_pow(a + b) == crate::scalar::two_pow(a) * crate::scalar::two_pow(b),
    decreases b,
{
    let x = crate::scalar::two_pow(a);
    if b > 0 {
        lemma_two_pow_add(a, (b - 1) as nat);
        let y = crate::scalar::two_pow((b - 1) as nat);
        let e = (a + b - 1) as nat;
        assert(e == a + (b - 1) as nat);
        assert(crate::scalar::two_pow(e) == x * y);
        assert(crate::scalar::two_pow(a + b) == 2 * crate::scalar::two_pow(e));
        assert(crate::scalar::two_pow(b) == 2 * y);
        assert(2 * (x * y) == x * (2 * y)) by (nonlinear_arith);
    } else {
        assert(crate::scalar::two_pow(0) == 1);
        assert(a + b == a);
        assert(x * 1 == x);
    }
}

proof fn lemma_two_pow_outgrows(k: nat)
    requires
        k >= 136,
    ensures
        crate::scalar::two_pow(k) > k * 0x8000_0000_0000_0000_0000_0000_0000_0000 + 1,
    decreases k,
{
    if k == 136 {
        lemma_two_pow_add(128, 8);
        lemma_two_pow_add(64, 64);
        lemma_two_pow_add(32, 32);
        lemma_two_pow_add(16, 16);
        lemma_two_pow_add(8, 8);
        assert(crate::scalar::two_pow(8) == 256) by {
            reveal_with_fuel(crate::scalar::two_pow, 9);
        }
        assert(crate::scalar::two_pow(16) == 0x1_0000);
        assert(crate::scalar::two_pow(32) == crate::scalar::two_pow(16) * crate::scalar::two_pow(16));
        assert(crate::scalar::two_pow(32) == 0x1_0000_0000);
        assert(crate::scalar::two_pow(64) == crate::scalar::two_pow(32) * crate::scalar::two_pow(32));
        assert(crate::scalar::two_pow(64) == 0x1_0000_0000_0000_0000);
        assert(crate::scalar::two_pow(128) == crate::scalar::two_pow(64) * crate::scalar::two_pow(64));
        assert(crate::scalar::two_pow(128) == 0x1_0000_0000_0000_0000_0000_0000_0000_0000);
        assert(crate::scalar::two_pow(136) == crate::scalar::two_pow(128) * crate::scalar::two_pow(8));
    } else {
        lemma_two_pow_outgrows((k - 1) as nat);
    }
}

/// A count above `span + 1` means two positions share an offset.
proof fn lemma_too_many(a: Seq<(isize, usize)>)
    requires
        axes_ok(a),
        axes_count(a) > axes_span(a) + 1,
    ensures
        !axes_disjoint(a),
{
    if axes_disjoint(a) {
        lemma_pigeonhole(a);
    }
}

/// The count of the first `j` axes is the count of the first `j - 1` times
/// the `j`-th dimension, and at most the count of all of them.
proof fn lemma_count_prefix(a: Seq<(isize, usize)>, j: int)
    requires
        1 <= j <= a.len(),
        forall|i: int| 0 <= i < a.len() ==> (#[trigger] a[i]).1 > 1,
    ensures
        axes_count(a.take(j)) == axes_count(a.take(j - 1)) * a[j - 1].1,
        axes_count(a.take(j)) <= axes_count(a),
    decreases a.len() - j,
{
    assert(a.take(j).drop_last() =~= a.take(j - 1));
    if j < a.len() {
        lemma_count_prefix(a, j + 1);
        let c = axes_count(a.take(j));
        let d = a[j].1 as nat;
        assert(c <= c * d) by (nonlinear_arith)
            requires
                d >= 1,
        ;
    } else {
        assert(a.take(j) =~= a);
    }
}

/// The value of a two-word number: the high word times `2^128` plus the low
/// word.
spec fn wide(w: (usize, u128)) -> int {
    w.0 * 0x1_0000_0000_0000_0000_0000_0000_0000_0000 + w.1
}

/// Two-word numbers of equal value are equal.
proof fn lemma_wide_injective(x: (usize, u128), y: (usize, u128))
    requires
        wide(x) == wide(y),
    ensures
        x == y,
{
    let c = 0x1_0000_0000_0000_0000_0000_0000_0000_0000int;
    assert(x.0 == y.0) by (nonlinear_arith)
        requires
            x.0 * c + x.1 == y.0 * c + y.1,
            0 <= x.1 < c,
            0 <= y.1 < c,
            c > 0,
    ;
}

/// Adds `t` to a two-word number.
fn wide_add(w: (usize, u128), t: u128) -> (r: (usize, u128))
    requires
        w.0 < 0x100,
    ensures
        wide(r) == wide(w) + t,
{
    let (h, l) = w;
    if l <= u128::MAX - t {
        (h, l + t)
    } else {
        (h + 1, l - (u128::MAX - t) - 1)
    }
}

/// The offset of a position less the least offset, over the axes `a`.
spec fn rel_offset(a: Seq<(isize, usize)>, k: nat) -> int {
    axes_offset(a, k) - axes_low(a)
}

/// What index `r` on an axis of stride `s` and dimension `d` adds to the
/// offset less the least offset: `r` steps of `|s|`, counted from the far
/// end where `s` is negative.
spec fn rel_step(s: isize, d: usize, r: nat) -> int {
    if s < 0 {
        abs_stride(s) * (d - 1 - r)
    } else {
        (abs_stride(s) * r) as int
    }
}

/// Position `i * d + r` over the axes lies `r` steps along the last axis
/// (of dimension `d`) from position `i` over the axes before it.
proof fn lemma_offset_step(a: Seq<(isize, usize)>, i: nat, r: nat)
    requires
        a.len() > 0,
        r < a.last().1,
    ensures
        rel_offset(a, (i * a.last().1 + r) as nat) == rel_offset(a.drop_last(), i) + rel_step(a.last().0, a.last().1, r),
{
    let d = a.last().1 as int;
    let s = a.last().0 as int;
    let k = i * d + r;
    vstd::arithmetic::div_mod::lemma_fundamental_div_mod_converse(k, d, i as int, r as int);
    if s < 0 {
        assert(r * s - s * (d - 1) == (-s) * (d - 1 - r)) by (nonlinear_arith);
    } else {
        assert(r * s == s * r) by (nonlinear_arith);
    }
}

/// Disjoint axes stay disjoint without the last one: a position over the
/// axes before it, taken with index 0 on the last axis, keeps its offset.
proof fn lemma_disjoint_drop_last(a: Seq<(isize, usize)>)
    requires
        a.len() > 0,
        axes_ok(a),
        axes_disjoint(a),
    ensures
        axes_disjoint(a.drop_last()),
{
    let b = a.drop_last();
    let d = a.last().1 as int;
    assert(a[a.len() - 1] == a.last());
    assert forall|k1: nat, k2: nat| k1 < k2 < axes_count(b) implies #[trigger] axes_offset(b, k1)
        != #[trigger] axes_offset(b, k2) by {
        let c = axes_count(b) as int;
        vstd::arithmetic::div_mod::lemma_fundamental_div_mod_converse(k1 * d, d, k1 as int, 0);
        vstd::arithmetic::div_mod::lemma_fundamental_div_mod_converse(k2 * d, d, k2 as int, 0);
        assert(k1 * d < k2 * d < c * d) by (nonlinear_arith)
            requires
                k1 < k2 < c,
                d > 1,
        ;
        assert(axes_count(a) == c * d);
        let p1 = (k1 * d) as nat;
        let p2 = (k2 * d) as nat;
        assert(axes_offset(a, p1) == axes_offset(b, k1));
        assert(axes_offset(a, p2) == axes_offset(b, k2));
        assert(axes_offset(a, p1) != axes_offset(a, p2));
    }
}

/// Disjoint axes stay disjoint on any prefix of them.
proof fn lemma_disjoint_prefix(a: Seq<(isize, usize)>, j: int)
    requires
        0 <= j <= a.len(),
        axes_ok(a),
        axes_disjoint(a),
    ensures
        axes_disjoint(a.take(j)),
    decreases a.len() - j,
{
    if j < a.len() {
        lemma_disjoint_prefix(a, j + 1);
        let b = a.take(j + 1);
        assert(b.drop_last() =~= a.take(j));
        assert forall|i: int| 0 <= i < b.len() implies (#[trigger] b[i]).1 > 1 by {
            assert(b[i] == a[i]);
        }
        lemma_disjoint_drop_last(b);
    } else {
        assert(a.take(j) =~= a);
    }
}

/// The refusal of overlapping strides.
fn overlap_error(shape: &[usize], strides: &[isize], itemsize: usize) -> (e: MohuError)
    ensures
        e matches MohuError::OverlappingStrides { shape: sh, strides: st, element_size } && sh@ == shape@ && st@
            == strides@ && element_size == itemsize,
{
    MohuError::OverlappingStrides { shape: slice_to_vec(shape), strides: slice_to_vec(strides), element_size: itemsize }
}

/// Checks that no two distinct elements share a byte address. At least 136
/// moving axes always share one (more positions than bytes in their span);
/// axes whose strides each exceed the span of the axes after them never do;
/// more positions than bytes in the span must share one; else the offsets
/// are built axis by axis, every position's offset less the least one held
/// in two words, and a repeated offset is refused.
#[verifier::spinoff_prover]
fn check_no_overlap(shape: &[usize], strides: &[isize], itemsize: usize) -> (r: MohuResult<()>)
    ensures
        r is Ok <==> !has_overlap(shape@, strides@),
        r matches Err(e) ==> (e matches MohuError::OverlappingStrides { shape: sh, strides: st, element_size }
            && sh@ == shape@ && st@ == strides@ && element_size == itemsize),
{
    broadcast use vstd::std_specs::hash::group_hash_axioms;
    let m = if shape.len() <= strides.len() { shape.len() } else { strides.len() };
    let mut axes: Vec<(isize, usize)> = Vec::new();
    let mut k: usize = 0;
    while k < m
        invariant
            k <= m,
            m == zip_len(shape@.len() as int, strides@.len() as int),
            axes@ == moving_axes(shape@, strides@, k as int),
        decreases m - k,
    {
        let s = strides[k];
        let d = shape[k];
        if s != 0 && d > 1 {
            axes.push((s, d));
        }
        k = k + 1;
    }
    let ghost a = axes@;
    proof {
        assert(a == all_moving_axes(shape@, strides@));
        lemma_moving_axes_move(shape@, strides@, m as int);
        assert(axes_ok(a));
        lemma_span_bound(a);
    }
    let na = axes.len();
    if na >= 136 {
        proof {
            lemma_axes_count_grows(a);
            lemma_two_pow_outgrows(na as nat);
            lemma_too_many(a);
        }
        return Err(overlap_error(shape, strides, itemsize));
    }
    // The span of the axes after `j` (`u128::MAX` once it reaches that), and
    // whether each stride exceeds the span of the axes after it.
    let mut span: u128 = 0;
    let ghost mut tail: int = 0;
    let mut dominated = true;
    let mut j: usize = na;
    proof {
        assert(a.take(na as int) =~= a);
    }
    while j > 0
        invariant
            j <= na,
            na == a.len() < 136,
            a == axes@,
            axes_ok(a),
            tail + axes_span(a.take(j as int)) == axes_span(a),
            tail >= 0,
            span == (if tail < u128::MAX { tail } else { u128::MAX as int }),
            dominated ==> (axes_dominate(a, 0) <==> axes_dominate(a.take(j as int), tail)),
            !dominated ==> !axes_dominate(a, 0),
        decreases j,
    {
        let (s, d) = axes[j - 1];
        let ms = unsigned_abs(s) as u128;
        proof {
            let t = a.take(j as int);
            assert(t.last() == a[j - 1]);
            assert(t.drop_last() =~= a.take(j - 1));
            assert(ms <= 0x8000_0000_0000_0000);
            assert(d <= 0xffff_ffff_ffff_ffff);
            assert(ms * (d - 1) <= 0x8000_0000_0000_0000_0000_0000_0000_0000) by (nonlinear_arith)
                requires
                    ms <= 0x8000_0000_0000_0000,
                    1 <= d <= 0xffff_ffff_ffff_ffff,
            ;
        }
        let term = ms * ((d - 1) as u128);
        if ms <= span {
            dominated = false;
        }
        span = match span.checked_add(term) {
            Some(v) => v,
            None => u128::MAX,
        };
        proof {
            tail = tail + term;
        }
        j = j - 1;
    }
    proof {
        assert(a.take(0) =~= Seq::<(isize, usize)>::empty());
    }
    if dominated {
        proof {
            lemma_dominate_disjoint(a);
        }
        return Ok(());
    }
    // The count of positions, stopping once it exceeds the span plus one.
    if span < u128::MAX {
        let bound = span + 1;
        let mut n: u128 = 1;
        let mut i: usize = 0;
        while i < na
            invariant
                i <= na,
                na == a.len() < 136,
                a == axes@,
                axes_ok(a),
                bound == axes_span(a) + 1,
                a == all_moving_axes(shape@, strides@),
                n == axes_count(a.take(i as int)),
                n <= bound,
            decreases na - i,
        {
            proof {
                let t = a.take(i + 1);
                assert(t.drop_last() =~= a.take(i as int));
                assert(t.last() == a[i as int]);
                lemma_count_prefix(a, i + 1);
            }
            let d = axes[i].1 as u128;
            match n.checked_mul(d) {
                Some(v) => {
                    if v > bound {
                        proof {
                            assert(v == axes_count(a.take(i + 1)));
                            assert(axes_count(a) > axes_span(a) + 1);
                            lemma_too_many(a);
                        }
                        return Err(overlap_error(shape, strides, itemsize));
                    }
                    n = v;
                },
                None => {
                    proof {
                        assert(n * d > u128::MAX);
                        assert(axes_count(a.take(i + 1)) == n * d);
                        assert(axes_count(a) > axes_span(a) + 1);
                        lemma_too_many(a);
                    }
                    return Err(overlap_error(shape, strides, itemsize));
                },
            }
            i = i + 1;
        }
    }
    // Axis by axis: the offset less the least one of every position over the
    // first `j` axes, in position order. A repeat over some of the axes is a
    // repeat over all of them.
    let mut cur: Vec<(usize, u128)> = Vec::new();
    cur.push((0, 0));
    let mut j: usize = 0;
    proof {
        assert(a.take(0) =~= Seq::<(isize, usize)>::empty());
        assert(rel_offset(a.take(0), 0) == 0);
    }
    while j < na
        invariant
            j <= na,
            na == a.len() < 136,
            a == axes@,
            a == all_moving_axes(shape@, strides@),
            axes_ok(a),
            cur@.len() == axes_count(a.take(j as int)),
            forall|k: int| 0 <= k < cur@.len() ==> wide(#[trigger] cur@[k]) == rel_offset(a.take(j as int), k as nat),
            axes_disjoint(a.take(j as int)),
        decreases na - j,
    {
        let ghost b0 = a.take(j as int);
        let ghost b1 = a.take(j + 1);
        proof {
            assert(b1.drop_last() =~= b0);
            assert(b1.last() == a[j as int]);
            assert forall|i: int| 0 <= i < b1.len() implies (#[trigger] b1[i]).1 > 1 by {
                assert(b1[i] == a[i]);
            }
            lemma_span_bound(b1);
            assert(axes_count(b1) == axes_count(b0) * b1.last().1);
        }
        let (s, d) = axes[j];
        let ms = unsigned_abs(s) as u128;
        let mut buckets: Vec<std::collections::HashSet<u128>> = Vec::new();
        let mut c: usize = 0;
        while c < 68
            invariant
                c <= 68,
                buckets@.len() == c,
                forall|h: int| 0 <= h < c ==> (#[trigger] buckets@[h])@ == Set::<u128>::empty(),
            decreases 68 - c,
        {
            buckets.push(std::collections::HashSet::new());
            c = c + 1;
        }
        let mut next: Vec<(usize, u128)> = Vec::new();
        let mut i: usize = 0;
        while i < cur.len()
            invariant
                j < na,
                na == a.len() < 136,
                a == axes@,
                a == all_moving_axes(shape@, strides@),
                axes_ok(a),
                b0 == a.take(j as int),
                b1 == a.take(j + 1),
                b1.drop_last() == b0,
                b1.last() == (s, d),
                axes_ok(b1),
                axes_span(b1) <= b1.len() * 0x8000_0000_0000_0000_0000_0000_0000_0000,
                axes_count(b1) == axes_count(b0) * d,
                ms == abs_stride(s),
                cur@.len() == axes_count(b0),
                forall|k: int| 0 <= k < cur@.len() ==> wide(#[trigger] cur@[k]) == rel_offset(b0, k as nat),
                i <= cur@.len(),
                next@.len() == i * d,
                buckets@.len() == 68,
                forall|k: int| 0 <= k < next@.len() ==> wide(#[trigger] next@[k]) == rel_offset(b1, k as nat),
                forall|h: int, l: u128|
                    #![trigger buckets@[h]@.contains(l)]
                    0 <= h < 68 ==> (buckets@[h]@.contains(l) <==> exists|k: int|
                        0 <= k < next@.len() && #[trigger] next@[k] == (h as usize, l)),
                forall|k1: nat, k2: nat|
                    k1 < k2 < next@.len() ==> #[trigger] axes_offset(b1, k1) != #[trigger] axes_offset(b1, k2),
            decreases cur@.len() - i,
        {
            let w = cur[i];
            let mut r: usize = 0;
            while r < d
                invariant
                    j < na,
                    na == a.len() < 136,
                    a == axes@,
                    a == all_moving_axes(shape@, strides@),
                    axes_ok(a),
                    b0 == a.take(j as int),
                    b1 == a.take(j + 1),
                    b1.drop_last() == b0,
                    b1.last() == (s, d),
                    axes_ok(b1),
                    axes_span(b1) <= b1.len() * 0x8000_0000_0000_0000_0000_0000_0000_0000,
                    axes_count(b1) == axes_count(b0) * d,
                    ms == abs_stride(s),
                    i < axes_count(b0),
                    wide(w) == rel_offset(b0, i as nat),
                    r <= d,
                    next@.len() == i * d + r,
                    buckets@.len() == 68,
                    forall|k: int| 0 <= k < next@.len() ==> wide(#[trigger] next@[k]) == rel_offset(b1, k as nat),
                    forall|h: int, l: u128|
                        #![trigger buckets@[h]@.contains(l)]
                        0 <= h < 68 ==> (buckets@[h]@.contains(l) <==> exists|k: int|
                            0 <= k < next@.len() && #[trigger] next@[k] == (h as usize, l)),
                    forall|k1: nat, k2: nat|
                        k1 < k2 < next@.len() ==> #[trigger] axes_offset(b1, k1) != #[trigger] axes_offset(b1, k2),
                decreases d - r,
            {
                let rr: usize = if s < 0 { d - 1 - r } else { r };
                let ghost p: nat = (i * d + r) as nat;
                proof {
                    assert(ms <= 0x8000_0000_0000_0000);
                    assert(ms * rr <= 0x8000_0000_0000_0000_0000_0000_0000_0000) by (nonlinear_arith)
                        requires
                            ms <= 0x8000_0000_0000_0000,
                            rr <= 0xffff_ffff_ffff_ffff,
                    ;
                    assert(b1.len() == j + 1 <= 135);
                    assert(p < axes_count(b1)) by (nonlinear_arith)
                        requires
                            p == i * d + r,
                            i < axes_count(b0),
                            r < d,
                            axes_count(b1) == axes_count(b0) * d,
                    ;
                    lemma_offset_step(b1, i as nat, r as nat);
                    lemma_offset_range(b1, p);
                    assert(rel_step(s, d, r as nat) == ms * rr);
                    assert(rel_step(s, d, r as nat) >= 0);
                    assert(wide(w) <= rel_offset(b1, p) <= axes_span(b1));
                    assert(w.0 < 0x100) by (nonlinear_arith)
                        requires
                            w.0 * 0x1_0000_0000_0000_0000_0000_0000_0000_0000int + w.1 <= 135 * 0x8000_0000_0000_0000_0000_0000_0000_0000int,
                            w.1 >= 0,
                    ;
                }
                let t = ms * (rr as u128);
                let v = wide_add(w, t);
                proof {
                    assert(t == ms * rr);
                    assert(wide(v) == rel_offset(b1, p));
                    assert(v.0 < 68) by (nonlinear_arith)
                        requires
                            v.0 * 0x1_0000_0000_0000_0000_0000_0000_0000_0000int + v.1 <= 135 * 0x8000_0000_0000_0000_0000_0000_0000_0000int,
                            v.1 >= 0,
                    ;
                }
                let (h2, l2) = v;
                let ghost before = buckets@;
                let ghost old_next = next@;
                let mut bucket = buckets.remove(h2);
                let fresh = bucket.insert(l2);
                buckets.insert(h2, bucket);
                proof {
                    assert(buckets@ =~= before.update(h2 as int, bucket));
                    assert(fresh == !before[h2 as int]@.contains(l2));
                }
                if !fresh {
                    proof {
                        let k = choose|k: int| 0 <= k < old_next.len() && #[trigger] old_next[k] == (h2, l2);
                        assert(wide(old_next[k]) == rel_offset(b1, k as nat));
                        assert(axes_offset(b1, k as nat) == axes_offset(b1, p));
                        assert(!axes_disjoint(b1));
                        if axes_disjoint(a) {
                            lemma_disjoint_prefix(a, j + 1);
                        }
                    }
                    return Err(overlap_error(shape, strides, itemsize));
                }
                next.push(v);
                proof {
                    assert forall|k1: nat, k2: nat| k1 < k2 < next@.len() implies #[trigger] axes_offset(b1, k1)
                        != #[trigger] axes_offset(b1, k2) by {
                        if k2 == p && axes_offset(b1, k1) == axes_offset(b1, k2) {
                            assert(wide(old_next[k1 as int]) == wide(v));
                            lemma_wide_injective(old_next[k1 as int], v);
                            assert(before[h2 as int]@.contains(l2));
                        }
                    }
                    assert forall|h: int, l: u128|
                        #![trigger buckets@[h]@.contains(l)]
                        0 <= h < 68 implies (buckets@[h]@.contains(l) <==> exists|k: int|
                            0 <= k < next@.len() && #[trigger] next@[k] == (h as usize, l)) by {
                        if exists|k: int| 0 <= k < next@.len() && #[trigger] next@[k] == (h as usize, l) {
                            let k = choose|k: int| 0 <= k < next@.len() && #[trigger] next@[k] == (h as usize, l);
                            if k < old_next.len() {
                                assert(old_next[k] == next@[k]);
                                assert(before[h]@.contains(l));
                            }
                        }
                        if buckets@[h]@.contains(l) {
                            if h == h2 && l == l2 {
                                assert(next@[p as int] == (h as usize, l));
                            } else {
                                assert(before[h]@.contains(l));
                                let k = choose|k: int| 0 <= k < old_next.len() && #[trigger] old_next[k] == (h as usize, l);
                                assert(next@[k] == old_next[k]);
                            }
                        }
                    }
                }
                r = r + 1;
            }
            proof {
                assert(i * d + d == (i + 1) * d) by (nonlinear_arith);
            }
            i = i + 1;
        }
        cur = next;
        j = j + 1;
    }
    proof {
        assert(a.take(na as int) =~= a);
    }
    Ok(())
}

/// Checks that every stride of an axis spanning more than one element is a
/// multiple of `itemsize`, and, for a mutable array, that no two distinct
/// elements share a byte address.
pub fn validate_strides(shape: &[usize], strides: &[isize], itemsize: usize, mutable: bool) -> (r: MohuResult<()>)
    requires
        itemsize == 0 ==> forall|a: int|
            0 <= a < zip_len(shape@.len() as int, strides@.len() as int) ==> #[trigger] shape@[a] <= 1,
    ensures
        r is Ok <==> strides_aligned(shape@, strides@, itemsize) && (mutable ==> !has_overlap(shape@, strides@)),
        !strides_aligned(shape@, strides@, itemsize) ==> (r matches Err(e) && first_misaligned_error(
            e,
            shape@,
            strides@,
            itemsize,
        )),
        strides_aligned(shape@, strides@, itemsize) && mutable && has_overlap(shape@, strides@) ==> (r matches Err(e)
            && e matches MohuError::OverlappingStrides { shape: sh, strides: st, element_size } && sh@
            == shape@ && st@ == strides@ && element_size == itemsize),
{
    let m = if shape.len() <= strides.len() { shape.len() } else { strides.len() };
    let mut axis: usize = 0;
    while axis < m
        invariant
            axis <= m,
            m == zip_len(shape@.len() as int, strides@.len() as int),
            itemsize == 0 ==> forall|a: int| 0 <= a < m ==> #[trigger] shape@[a] <= 1,
            forall|j: int| 0 <= j < axis ==> !#[trigger] misaligned(shape@, strides@, itemsize, j),
        decreases m - axis,
    {
        let stride = strides[axis];
        let dim = shape[axis];
        if dim > 1 {
            if unsigned_abs(stride) % itemsize != 0 {
                proof {
                    assert(misaligned(shape@, strides@, itemsize, axis as int));
                }
                return Err(MohuError::InvalidStride { axis, stride, element_size: itemsize });
            }
        }
        axis = axis + 1;
    }
    if mutable {
        check_no_overlap(shape, strides, itemsize)?;
    }
    Ok(())
}


// ─── Offsets of the C order ──────────────────────────────────────────────────

/// The product of the dimensions from axis `k` on (1 past the last axis).
pub open spec fn suffix_product(shape: Seq<usize>, k: int) -> int
    decreases shape.len() - k,
{
    if k < 0 || k >= shape.len() {
        1
    } else {
        shape[k] * suffix_product(shape, k + 1)
    }
}

/// The product of the first `k` dimensions times the product of the rest
/// is the product of all of them.
pub(crate) proof fn lemma_prefix_suffix(shape: Seq<usize>, k: int)
    requires
        0 <= k <= shape.len(),
    ensures
        shape_product(shape.take(k)) * suffix_product(shape, k) == shape_product(shape),
    decreases shape.len() - k,
{
    if k == shape.len() {
        assert(shape.take(k) =~= shape);
    } else {
        lemma_prefix_suffix(shape, k + 1);
        lemma_take_step(shape, k);
        let a = shape_product(shape.take(k));
        let d = shape[k] as int;
        let s = suffix_product(shape, k + 1);
        assert(a * (d * s) == (a * d) * s) by (nonlinear_arith);
    }
}

/// With every dimension positive, every prefix product is at least 1.
pub(crate) proof fn lemma_prefix_pos(shape: Seq<usize>, k: int)
    requires
        0 <= k <= shape.len(),
        forall|i: int| 0 <= i < shape.len() ==> #[trigger] shape[i] > 0,
    ensures
        shape_product(shape.take(k)) >= 1,
    decreases k,
{
    if k == 0 {
        assert(shape.take(0) =~= Seq::<usize>::empty());
    } else {
        lemma_prefix_pos(shape, k - 1);
        lemma_take_step(shape, k - 1);
        let a = shape_product(shape.take(k - 1));
        let d = shape[k - 1] as int;
        assert(a * d >= 1) by (nonlinear_arith)
            requires
                a >= 1,
                d >= 1,
        ;
    }
}

/// When no product overflows, the C-order running stride from axis `k` is
/// `itemsize` times the product of the dimensions from `k` on.
pub proof fn lemma_c_stride_exact(shape: Seq<usize>, itemsize: usize, k: int)
    requires
        0 <= k <= shape.len(),
        itemsize >= 1,
        shape_product(shape) > 0,
        shape_product(shape) * itemsize <= isize::MAX,
    ensures
        c_stride_acc(shape, itemsize, k) == itemsize * suffix_product(shape, k),
    decreases shape.len() - k,
{
    let p = shape_product(shape);
    let w = itemsize as int;
    assert(w <= isize::MAX) by (nonlinear_arith)
        requires
            p * w <= isize::MAX,
            p >= 1,
            w >= 1,
    ;
    if k < shape.len() {
        lemma_c_stride_exact(shape, itemsize, k + 1);
        lemma_product_pos_dims(shape);
        lemma_prefix_pos(shape, k);
        lemma_prefix_suffix(shape, k);
        lemma_suffix_pos(shape, k + 1);
        let a = shape_product(shape.take(k));
        let d = shape[k] as int;
        let s = suffix_product(shape, k + 1);
        assert(w * (d * s) <= p * w) by (nonlinear_arith)
            requires
                a * (d * s) == p,
                a >= 1,
                d >= 1,
                s >= 1,
                w >= 1,
        ;
        assert(d <= p) by (nonlinear_arith)
            requires
                a * (d * s) == p,
                a >= 1,
                d >= 1,
                s >= 1,
        ;
        assert((w * s) * d == w * (d * s)) by (nonlinear_arith);
        assert(p <= isize::MAX) by (nonlinear_arith)
            requires
                p * w <= isize::MAX,
                w >= 1,
                p >= 1,
        ;
        assert(d <= isize::MAX);
        assert((shape[k] as isize) as int == d);
        assert(c_stride_acc(shape, itemsize, k + 1) * (shape[k] as isize) == w * (d * s));
    }
}

/// With every dimension positive, every suffix product is at least 1.
pub(crate) proof fn lemma_suffix_pos(shape: Seq<usize>, k: int)
    requires
        forall|i: int| 0 <= i < shape.len() ==> #[trigger] shape[i] > 0,
    ensures
        suffix_product(shape, k) >= 1,
    decreases shape.len() - k,
{
    if 0 <= k < shape.len() {
        lemma_suffix_pos(shape, k + 1);
        let d = shape[k] as int;
        let s = suffix_product(shape, k + 1);
        assert(d * s >= 1) by (nonlinear_arith)
            requires
                d >= 1,
                s >= 1,
        ;
    }
}

/// Over the C-order strides, the offset of the first `j` components of an
/// in-bounds multi-index is the C-order position of those components times
/// the stride of axis `j - 1`.
pub(crate) proof fn lemma_offset_sum_c(idx: Seq<usize>, shape: Seq<usize>, itemsize: usize, strides: Seq<isize>, j: int)
    requires
        0 <= j <= shape.len(),
        in_bounds(idx, shape),
        strides.len() == shape.len(),
        forall|i: int| 0 <= i < shape.len() ==> #[trigger] strides[i] == itemsize * suffix_product(shape, i + 1),
        forall|i: int| 0 <= i < shape.len() ==> #[trigger] shape[i] <= isize::MAX,
    ensures
        offset_sum(idx, strides, j) == ravel(idx.take(j), shape.take(j)) * (itemsize * suffix_product(shape, j)),
    decreases j,
{
    if j > 0 {
        lemma_offset_sum_c(idx, shape, itemsize, strides, j - 1);
        let r = ravel(idx.take(j - 1), shape.take(j - 1));
        let x = idx[j - 1] as int;
        let d = shape[j - 1] as int;
        let s = suffix_product(shape, j);
        let w = itemsize as int;
        assert(idx.take(j).drop_last() =~= idx.take(j - 1));
        assert(shape.take(j).drop_last() =~= shape.take(j - 1));
        assert(ravel(idx.take(j), shape.take(j)) == r * d + x);
        assert(idx[j - 1] < shape[j - 1]);
        assert((x as isize) as int == x);
        assert(r * (w * (d * s)) + x * (w * s) == (r * d + x) * (w * s)) by (nonlinear_arith);
    } else {
        assert(idx.take(0) =~= Seq::<usize>::empty());
    }
}

/// Over the C-order strides of a shape whose bytes fit in `isize`, the
/// offset of an in-bounds multi-index is its C-order position times
/// `itemsize`.
pub proof fn lemma_c_offset(idx: Seq<usize>, shape: Seq<usize>, itemsize: usize, strides: Seq<isize>)
    requires
        in_bounds(idx, shape),
        itemsize >= 1,
        shape_product(shape) * itemsize <= isize::MAX,
        strides.len() == shape.len(),
        forall|i: int| 0 <= i < shape.len() ==> #[trigger] strides[i] == c_stride_acc(shape, itemsize, i + 1),
    ensures
        offset_sum(idx, strides, shape.len() as int) == ravel(idx, shape) * itemsize,
{
    lemma_ravel_bound(idx, shape);
    lemma_product_pos_dims(shape);
    assert forall|i: int| 0 <= i < shape.len() implies #[trigger] strides[i] == itemsize * suffix_product(
        shape,
        i + 1,
    ) by {
        lemma_c_stride_exact(shape, itemsize, i + 1);
    }
    assert forall|i: int| 0 <= i < shape.len() implies #[trigger] shape[i] <= isize::MAX by {
        lemma_prefix_suffix(shape, i);
        lemma_prefix_pos(shape, i);
        lemma_suffix_pos(shape, i + 1);
        let a = shape_product(shape.take(i));
        let d = shape[i] as int;
        let s = suffix_product(shape, i + 1);
        let w = itemsize as int;
        assert(d <= shape_product(shape) * w) by (nonlinear_arith)
            requires
                a * (d * s) == shape_product(shape),
                a >= 1,
                s >= 1,
                d >= 1,
                w >= 1,
        ;
    }
    lemma_offset_sum_c(idx, shape, itemsize, strides, shape.len() as int);
    assert(idx.take(shape.len() as int) =~= idx);
    assert(shape.take(shape.len() as int) =~= shape);
}

} // verus!

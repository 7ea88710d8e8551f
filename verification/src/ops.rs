//! Strided element access over a byte store: element offsets, bounds checks,
//! and the gather of every element into C order.
use vstd::prelude::*;
use vstd::slice::{slice_subrange, slice_to_vec};
use vstd::string::StringExecFns;
use crate::buffer::{
    flip_fits, flipped_offset, one_bytes, one_bytes_vec, repeat_bytes, repeated, write_outcome, Buffer, BufferView,
};
use crate::dtype::{spec_is_integer, spec_is_signed_integer, spec_is_unsigned_integer, spec_itemsize, spec_numpy_str, DType};
use crate::text::{decimal, push_decimal, string_of};
use crate::scalar::{abs_int, bit_pattern, IntScalar, RealScalar};
use crate::promote::{can_cast, int_hi, int_lo, spec_can_cast, CastMode};
use crate::random::le_byte;
use crate::error::{MohuError, MohuResult};
use crate::layout::{c_contiguous, custom_error, custom_ok, layout_of, usize_slices_equal, Layout, LayoutView};
use crate::strides::{
    c_index, contiguous_nbytes, in_bounds, lemma_c_index, offset_fits, offset_sum, prefixes_fit, shape_product,
    spec_contiguous_nbytes, spec_shape_size, zip_len, NdIndexIter,
};

verus! {

/// Byte offset of the element at multi-index `idx`: the base offset plus the
/// sum of index times stride over the axes.
pub open spec fn element_offset(l: LayoutView, idx: Seq<usize>) -> int {
    (l.offset as isize) + offset_sum(idx, l.strides, zip_len(idx.len() as int, l.strides.len() as int))
}

/// Byte offset of the `k`-th element in C order.
pub open spec fn nth_offset(l: LayoutView, k: nat) -> int {
    element_offset(l, c_index(l.shape, k))
}

/// The offset of the element at `idx` is computed within `isize`, is not
/// negative, and the element's bytes end within a store of `n` bytes.
#[verifier::opaque]
pub open spec fn element_ok(l: LayoutView, idx: Seq<usize>, n: nat) -> bool {
    &&& offset_fits(idx, l.strides, l.offset)
    &&& 0 <= element_offset(l, idx)
    &&& element_offset(l, idx) + l.itemsize <= n
}

/// The first `m` elements in C order are all within a store of `n` bytes.
pub open spec fn elements_ok_upto(l: LayoutView, n: nat, m: nat) -> bool {
    forall|k: nat| k < m ==> #[trigger] element_ok(l, c_index(l.shape, k), n)
}

/// Every element of the layout lies within a store of `n` bytes.
pub open spec fn all_elements_ok(l: LayoutView, n: nat) -> bool {
    elements_ok_upto(l, n, shape_product(l.shape) as nat)
}

/// `e` reports the element at `idx` of `l` as not lying within a store of
/// `n` bytes: `OffsetOverflow` when its offset cannot be computed or is
/// negative, else `BufferTooSmall` with the byte count it needs.
pub open spec fn bad_index_error(e: MohuError, l: LayoutView, idx: Seq<usize>, n: nat) -> bool {
    if !offset_fits(idx, l.strides, l.offset) || element_offset(l, idx) < 0 {
        e matches MohuError::OffsetOverflow { shape, strides, index } && shape@ == l.shape && strides@
            == l.strides && index@ == idx
    } else {
        e matches MohuError::BufferTooSmall { required, got } && required == (if element_offset(l, idx)
            + l.itemsize > usize::MAX {
            usize::MAX as int
        } else {
            element_offset(l, idx) + l.itemsize
        }) && got == n
    }
}

/// `e` reports element `k` (in C order) of `l` as not lying within a store
/// of `n` bytes.
pub open spec fn bad_element_error(e: MohuError, l: LayoutView, k: nat, n: nat) -> bool {
    bad_index_error(e, l, c_index(l.shape, k), n)
}

/// The failure of an access to the elements of `l` in a store of `n` bytes:
/// the first element in C order that does not lie within it.
pub open spec fn first_bad_element(e: MohuError, l: LayoutView, n: nat) -> bool {
    exists|k: nat|
        k < shape_product(l.shape) && elements_ok_upto(l, n, k) && !element_ok(l, c_index(l.shape, k), n)
            && #[trigger] bad_element_error(e, l, k, n)
}

/// The bytes of every element of `l` in C order, read from `data` and laid
/// end to end.
#[verifier::opaque]
pub open spec fn gathered(data: Seq<u8>, l: LayoutView) -> Seq<u8> {
    Seq::new(
        (shape_product(l.shape) * l.itemsize) as nat,
        |i: int| data[nth_offset(l, (i / (l.itemsize as int)) as nat) + i % (l.itemsize as int)],
    )
}

/// Computes `base + sum(indices[i] * strides[i])` in `isize`, or `None` when
/// a step overflows.
pub fn checked_offset(indices: &[usize], strides: &[isize], base: usize) -> (r: Option<isize>)
    ensures
        r is Some <==> offset_fits(indices@, strides@, base),
        r matches Some(off) ==> off == (base as isize) + offset_sum(
            indices@,
            strides@,
            zip_len(indices@.len() as int, strides@.len() as int),
        ),
{
    let m = if indices.len() <= strides.len() {
        indices.len()
    } else {
        strides.len()
    };
    let mut acc: isize = base as isize;
    let mut j: usize = 0;
    while j < m
        invariant
            j <= m,
            m == zip_len(indices@.len() as int, strides@.len() as int),
            acc == (base as isize) + offset_sum(indices@, strides@, j as int),
            forall|k: int|
                0 <= k < j ==> {
                    &&& isize::MIN <= #[trigger] ((indices@[k] as isize) * strides@[k]) <= isize::MAX
                    &&& isize::MIN <= (base as isize) + offset_sum(indices@, strides@, k + 1) <= isize::MAX
                },
        decreases m - j,
    {
        let t = match (indices[j] as isize).checked_mul(strides[j]) {
            Some(t) => t,
            None => return None,
        };
        acc = match acc.checked_add(t) {
            Some(a) => a,
            None => return None,
        };
        j = j + 1;
    }
    Some(acc)
}

/// The error for element `idx`, known not to lie within `n` bytes.
pub fn bad_element(l: &Layout, idx: &[usize], off: Option<isize>, n: usize) -> (e: MohuError)
    requires
        off is Some <==> offset_fits(idx@, l@.strides, l@.offset),
        off matches Some(o) ==> o == element_offset(l@, idx@),
        idx@.len() == l@.shape.len(),
    ensures
        (!offset_fits(idx@, l@.strides, l@.offset) || element_offset(l@, idx@) < 0) ==> (e matches MohuError::OffsetOverflow {
            shape,
            strides,
            index,
        } && shape@ == l@.shape && strides@ == l@.strides && index@ == idx@),
        (offset_fits(idx@, l@.strides, l@.offset) && element_offset(l@, idx@) >= 0) ==> (e matches MohuError::BufferTooSmall {
            required,
            got,
        } && required == (if element_offset(l@, idx@) + l@.itemsize > usize::MAX {
            usize::MAX as int
        } else {
            element_offset(l@, idx@) + l@.itemsize
        }) && got == n),
{
    match off {
        Some(o) => {
            if o >= 0 {
                let required = (o as usize).saturating_add(l.itemsize());
                return MohuError::BufferTooSmall { required, got: n };
            }
        },
        None => {},
    }
    MohuError::OffsetOverflow {
        shape: slice_to_vec(l.shape()),
        strides: slice_to_vec(l.strides()),
        index: slice_to_vec(idx),
    }
}

proof fn lemma_div_mod_step(i: int, k: int, d: int)
    requires
        d > 0,
        k * d <= i < k * d + d,
    ensures
        i / d == k,
        i % d == i - k * d,
{
    vstd::arithmetic::div_mod::lemma_fundamental_div_mod_converse(i, d, k, i - k * d);
}

/// An element that fails after `k` good ones is the first bad element.
proof fn lemma_first_bad(e: MohuError, l: LayoutView, n: nat, k: nat)
    requires
        k < shape_product(l.shape),
        elements_ok_upto(l, n, k),
        !element_ok(l, c_index(l.shape, k), n),
        bad_element_error(e, l, k, n),
    ensures
        first_bad_element(e, l, n),
        !all_elements_ok(l, n),
{
    reveal(element_ok);
}

/// Appending the bytes of element `k` at offset `o` extends a gathered
/// prefix of `k` elements to one of `k + 1` elements.
proof fn lemma_gather_step(data: Seq<u8>, l: LayoutView, n: nat, k: nat, o: int, before: Seq<u8>, out: Seq<u8>)
    requires
        elements_ok_upto(l, n, k),
        element_ok(l, c_index(l.shape, k), n),
        o == nth_offset(l, k),
        k < shape_product(l.shape),
        before.len() == k * l.itemsize,
        out.len() == k * l.itemsize + l.itemsize,
        forall|i: int| 0 <= i < k * l.itemsize ==> #[trigger] before[i] == gathered(data, l)[i],
        forall|i: int| 0 <= i < k * l.itemsize ==> #[trigger] out[i] == before[i],
        forall|i: int| 0 <= i < l.itemsize ==> #[trigger] out[k * l.itemsize + i] == data[o + i],
    ensures
        elements_ok_upto(l, n, k + 1),
        out.len() == (k + 1) * l.itemsize,
        forall|i: int| 0 <= i < (k + 1) * l.itemsize ==> #[trigger] out[i] == gathered(data, l)[i],
{
    reveal(gathered);
    let isz = l.itemsize as int;
    assert((k + 1) * isz == k * isz + isz) by (nonlinear_arith);
    assert(k * isz + isz <= shape_product(l.shape) * isz) by (nonlinear_arith)
        requires
            k < shape_product(l.shape),
            isz >= 0,
    ;
    assert forall|q: nat| q < k + 1 implies #[trigger] element_ok(l, c_index(l.shape, q), n) by {
        if q < k {
            assert(elements_ok_upto(l, n, k));
        }
    }
    assert forall|i: int| 0 <= i < (k + 1) * isz implies #[trigger] out[i] == gathered(data, l)[i] by {
        if i < k * isz {
            assert(out[i] == before[i]);
        } else {
            lemma_div_mod_step(i, k as int, isz);
            assert(out[k * isz + (i - k * isz)] == data[o + (i - k * isz)]);
        }
    }
}

/// Appends `data[at..at + count]` to `out`.
pub fn push_bytes(out: &mut Vec<u8>, data: &[u8], at: usize, count: usize)
    requires
        at + count <= data@.len(),
    ensures
        final(out)@ == old(out)@ + data@.subrange(at as int, at + count),
{
    let ghost start = out@;
    let len = data.len();
    let mut j: usize = 0;
    while j < count
        invariant
            j <= count,
            at + count <= len,
            len == data@.len(),
            out@ == start + data@.subrange(at as int, at + j),
        decreases count - j,
    {
        out.push(data[at + j]);
        proof {
            assert(data@.subrange(at as int, at + j + 1) =~= data@.subrange(at as int, at + j).push(data@[at + j]));
        }
        j = j + 1;
    }
}

/// Copies the bytes of every element of `layout` from `data` into a new
/// vector, in C order.
///
/// Fails as `contiguous_nbytes` does when the element count or byte count
/// overflows, and at the first element (in C order) that does not lie within
/// `data` (see [`first_bad_element`]).
pub fn gather_elements(data: &[u8], layout: &Layout) -> (r: MohuResult<Vec<u8>>)
    ensures
        spec_contiguous_nbytes(layout@.shape, layout@.itemsize) matches Err(e) ==> r == Err::<
            Vec<u8>,
            MohuError,
        >(e),
        spec_contiguous_nbytes(layout@.shape, layout@.itemsize) is Ok ==> {
            &&& all_elements_ok(layout@, data@.len()) ==> (r matches Ok(v) && v@ == gathered(data@, layout@))
            &&& !all_elements_ok(layout@, data@.len()) ==> (r matches Err(e) && first_bad_element(
                e,
                layout@,
                data@.len(),
            ))
        },
{
    let shape = layout.shape();
    let strides = layout.strides();
    let isz = layout.itemsize();
    let base = layout.offset();
    match contiguous_nbytes(shape, isz) {
        Ok(_) => {},
        Err(e) => return Err(e),
    }
    proof {
        crate::strides::lemma_shape_product_nonneg(shape@);
        if shape@.len() == 0 {
            assert(shape@.take(0) =~= shape@);
        }
        assert(prefixes_fit(shape@, usize::MAX as int));
        assert(shape_product(shape@) * isz <= usize::MAX) by {
            assert(shape@.take(shape@.len() as int) =~= shape@);
            assert(shape_product(shape@.take(shape@.len() as int)) <= isize::MAX);
            if shape@.len() == 0 {
                assert(shape_product(shape@) == 1);
            }
        }
    }
    let ghost l = layout@;
    let mut it = NdIndexIter::new(shape);
    let n = it.total();
    let len = data.len();
    let mut out: Vec<u8> = Vec::new();
    let mut k: usize = 0;
    while k < n
        invariant
            k <= n,
            n == shape_product(l.shape),
            it@ == (l.shape, k as nat),
            l == layout@,
            shape@ == l.shape,
            strides@ == l.strides,
            isz == l.itemsize,
            base == l.offset,
            len == data@.len(),
            n * isz <= usize::MAX,
            spec_contiguous_nbytes(l.shape, l.itemsize) is Ok,
            elements_ok_upto(l, len as nat, k as nat),
            out@.len() == k * isz,
            forall|i: int| 0 <= i < k * isz ==> #[trigger] out@[i] == gathered(data@, l)[i],
        decreases n - k,
    {
        let idx = match it.next() {
            Some(v) => v,
            None => {
                proof {
                    assert(false);
                }
                return Err(MohuError::NonContiguous);
            },
        };
        proof {
            lemma_c_index(l.shape, k as nat);
        }
        let off = checked_offset(idx.as_slice(), strides, base);
        let ok = match off {
            Some(o) => o >= 0 && (o as usize) <= len && isz <= len - (o as usize),
            None => false,
        };
        if !ok {
            let e = bad_element(layout, idx.as_slice(), off, len);
            proof {
                assert(!element_ok(l, c_index(l.shape, k as nat), len as nat)) by {
                    reveal(element_ok);
                }
                lemma_first_bad(e, l, len as nat, k as nat);
            }
            return Err(e);
        }
        let o = match off {
            Some(o) => o as usize,
            None => 0,
        };
        let ghost before = out@;
        assert(o as int == nth_offset(l, k as nat));
        assert(element_ok(l, c_index(l.shape, k as nat), len as nat)) by {
            reveal(element_ok);
        }
        push_bytes(&mut out, data, o, isz);
        proof {
            assert forall|i: int| 0 <= i < k * isz implies #[trigger] out@[i] == before[i] by {}
            assert forall|i: int| 0 <= i < isz implies #[trigger] out@[k * isz + i] == data@[o + i] by {}
            lemma_gather_step(data@, l, len as nat, k as nat, o as int, before, out@);
        }
        k = k + 1;
    }
    proof {
        reveal(gathered);
        assert(out@ =~= gathered(data@, l));
    }
    Ok(out)
}


// ─── Locating one element ────────────────────────────────────────────────────

/// Axis `a` is the first whose index is not below its dimension.
pub open spec fn first_out_of_range(idx: Seq<usize>, shape: Seq<usize>, a: int) -> bool {
    &&& 0 <= a < idx.len()
    &&& idx[a] >= shape[a]
    &&& forall|j: int| 0 <= j < a ==> #[trigger] idx[j] < shape[j]
}

/// `r` is the outcome of locating the element at `idx` of `l` in a store of
/// `n` bytes: `TooManyIndices` when the index count differs from the number
/// of dimensions, `IndexOutOfBounds` at the first index that is not below its
/// dimension, the failure [`bad_index_error`] describes when the element does
/// not lie within the store, else its byte offset.
pub open spec fn locate_outcome(l: LayoutView, idx: Seq<usize>, n: nat, r: MohuResult<usize>) -> bool {
    &&& idx.len() != l.shape.len() ==> r == Err::<usize, MohuError>(
        MohuError::TooManyIndices { given: idx.len() as usize, ndim: l.shape.len() as usize },
    )
    &&& idx.len() == l.shape.len() && !in_bounds(idx, l.shape) ==> exists|a: int|
        #[trigger] first_out_of_range(idx, l.shape, a) && r == Err::<usize, MohuError>(
            MohuError::IndexOutOfBounds { index: idx[a] as i64, axis: a as usize, size: l.shape[a] },
        )
    &&& in_bounds(idx, l.shape) ==> {
        &&& element_ok(l, idx, n) ==> r == Ok::<usize, MohuError>(element_offset(l, idx) as usize)
        &&& !element_ok(l, idx, n) ==> (r matches Err(e) && bad_index_error(e, l, idx, n))
    }
}

/// The byte offset of the element at `indices` in a store of `n` bytes,
/// failing as [`locate_outcome`] describes.
pub fn locate(layout: &Layout, indices: &[usize], n: usize) -> (r: MohuResult<usize>)
    ensures
        locate_outcome(layout@, indices@, n as nat, r),
{
    let shape = layout.shape();
    let nd = shape.len();
    if indices.len() != nd {
        return Err(MohuError::TooManyIndices { given: indices.len(), ndim: nd });
    }
    let mut a: usize = 0;
    while a < nd
        invariant
            a <= nd,
            nd == shape@.len(),
            shape@ == layout@.shape,
            indices@.len() == nd,
            forall|j: int| 0 <= j < a ==> #[trigger] indices@[j] < shape@[j],
        decreases nd - a,
    {
        if indices[a] >= shape[a] {
            proof {
                assert(first_out_of_range(indices@, layout@.shape, a as int));
            }
            return Err(MohuError::IndexOutOfBounds { index: indices[a] as i64, axis: a, size: shape[a] });
        }
        a = a + 1;
    }
    let off = checked_offset(indices, layout.strides(), layout.offset());
    let isz = layout.itemsize();
    let ok = match off {
        Some(o) => o >= 0 && (o as usize) <= n && isz <= n - (o as usize),
        None => false,
    };
    if !ok {
        let e = bad_element(layout, indices, off, n);
        proof {
            reveal(element_ok);
        }
        return Err(e);
    }
    proof {
        reveal(element_ok);
    }
    match off {
        Some(o) => Ok(o as usize),
        None => Ok(0),
    }
}

// ─── Truthiness ──────────────────────────────────────────────────────────────

/// The index of the byte that holds the sign bit of a `w`-byte float stored
/// from `start`: the last byte when least significant bytes come first
/// (`little`), else the first.
pub open spec fn sign_byte(start: int, w: int, little: bool) -> int {
    if little {
        start + w - 1
    } else {
        start
    }
}

/// Byte `i` of `e`, with its top bit cleared when it is the sign byte `sign`.
pub open spec fn value_byte(e: Seq<u8>, i: int, sign: int) -> u8 {
    if i == sign {
        e[i] & 0x7fu8
    } else {
        e[i]
    }
}

/// The `w`-byte float stored at `e[start..start + w]` is not ±0: some bit
/// other than its sign bit is set (NaN counts as non-zero).
pub open spec fn float_nonzero(e: Seq<u8>, start: int, w: int, little: bool) -> bool {
    exists|i: int| start <= i < start + w && #[trigger] value_byte(e, i, sign_byte(start, w, little)) != 0
}

/// Some byte of `e` is non-zero.
pub open spec fn bytes_nonzero(e: Seq<u8>) -> bool {
    exists|i: int| 0 <= i < e.len() && #[trigger] e[i] != 0
}

/// Whether the bytes `e` of one element of `d` hold a non-zero value: a
/// non-zero byte for bool and integers, a float other than ±0, or a complex
/// number with a non-zero part.
pub open spec fn element_truthy(d: DType, e: Seq<u8>, little: bool) -> bool {
    match d {
        DType::F16 | DType::BF16 => float_nonzero(e, 0, 2, little),
        DType::F32 => float_nonzero(e, 0, 4, little),
        DType::F64 => float_nonzero(e, 0, 8, little),
        DType::C64 => float_nonzero(e, 0, 4, little) || float_nonzero(e, 4, 4, little),
        DType::C128 => float_nonzero(e, 0, 8, little) || float_nonzero(e, 8, 8, little),
        _ => bytes_nonzero(e),
    }
}

/// Element `k` of contiguous bytes `c` with elements of `isz` bytes.
pub open spec fn element_of(c: Seq<u8>, isz: nat, k: nat) -> Seq<u8> {
    c.subrange((k * isz) as int, (k * isz + isz) as int)
}

/// How many of the first `m` elements of `c` are non-zero.
pub open spec fn truthy_count(c: Seq<u8>, d: DType, little: bool, m: nat) -> nat
    decreases m,
{
    if m == 0 {
        0
    } else {
        truthy_count(c, d, little, (m - 1) as nat) + if element_truthy(
            d,
            element_of(c, spec_itemsize(d), (m - 1) as nat),
            little,
        ) {
            1nat
        } else {
            0nat
        }
    }
}

fn float_nonzero_at(c: &[u8], start: usize, w: usize, little: bool) -> (r: bool)
    requires
        w > 0,
        start + w <= c@.len(),
    ensures
        r == float_nonzero(c@, start as int, w as int, little),
{
    let n = c.len();
    let end = start + w;
    let sign = if little {
        start + w - 1
    } else {
        start
    };
    let mut i: usize = start;
    while i < end
        invariant
            start <= i <= start + w,
            end == start + w,
            start + w <= c@.len(),
            sign == sign_byte(start as int, w as int, little),
            forall|j: int| start <= j < i ==> #[trigger] value_byte(c@, j, sign as int) == 0,
        decreases start + w - i,
    {
        let b = if i == sign {
            c[i] & 0x7f
        } else {
            c[i]
        };
        if b != 0 {
            proof {
                assert(value_byte(c@, i as int, sign as int) != 0);
            }
            return true;
        }
        i = i + 1;
    }
    false
}

fn bytes_nonzero_at(c: &[u8], start: usize, w: usize) -> (r: bool)
    requires
        start + w <= c@.len(),
    ensures
        r == bytes_nonzero(c@.subrange(start as int, start + w)),
{
    let n = c.len();
    let ghost e = c@.subrange(start as int, start + w);
    let mut i: usize = 0;
    while i < w
        invariant
            i <= w,
            start + w <= c@.len(),
            n == c@.len(),
            e == c@.subrange(start as int, start + w),
            forall|j: int| 0 <= j < i ==> #[trigger] e[j] == 0,
        decreases w - i,
    {
        if c[start + i] != 0 {
            proof {
                assert(e[i as int] != 0);
            }
            return true;
        }
        i = i + 1;
    }
    false
}

/// A float test on an element's own bytes equals the test on the store.
proof fn lemma_float_shift(c: Seq<u8>, at: int, isz: int, start: int, w: int, little: bool)
    requires
        0 <= at,
        at + isz <= c.len(),
        0 <= start,
        start + w <= isz,
    ensures
        float_nonzero(c.subrange(at, at + isz), start, w, little) == float_nonzero(c, at + start, w, little),
{
    let e = c.subrange(at, at + isz);
    if float_nonzero(e, start, w, little) {
        let i = choose|i: int| start <= i < start + w && #[trigger] value_byte(e, i, sign_byte(start, w, little)) != 0;
        assert(value_byte(c, at + i, sign_byte(at + start, w, little)) != 0);
    }
    if float_nonzero(c, at + start, w, little) {
        let i = choose|i: int|
            at + start <= i < at + start + w && #[trigger] value_byte(c, i, sign_byte(at + start, w, little)) != 0;
        assert(value_byte(e, i - at, sign_byte(start, w, little)) != 0);
    }
}

/// Whether the element of `d` stored at `c[at..at + itemsize]` is non-zero,
/// floats read in byte order `little`.
pub fn element_truthy_at(c: &[u8], at: usize, d: DType, little: bool) -> (r: bool)
    requires
        at + spec_itemsize(d) <= c@.len(),
    ensures
        r == element_truthy(d, c@.subrange(at as int, at + spec_itemsize(d)), little),
{
    let n = c.len();
    let isz = d.itemsize();
    proof {
        let ai = at as int;
        let si = isz as int;
        lemma_float_shift(c@, ai, si, 0, si, little);
        if si == 8 {
            lemma_float_shift(c@, ai, si, 0, 4, little);
            lemma_float_shift(c@, ai, si, 4, 4, little);
        }
        if si == 16 {
            lemma_float_shift(c@, ai, si, 0, 8, little);
            lemma_float_shift(c@, ai, si, 8, 8, little);
        }
    }
    match d {
        DType::F16 | DType::BF16 | DType::F32 | DType::F64 => float_nonzero_at(c, at, isz, little),
        DType::C64 => float_nonzero_at(c, at, 4, little) || float_nonzero_at(c, at + 4, 4, little),
        DType::C128 => float_nonzero_at(c, at, 8, little) || float_nonzero_at(c, at + 8, 8, little),
        _ => bytes_nonzero_at(c, at, isz),
    }
}


// ─── Writing elements ────────────────────────────────────────────────────────

/// `data` after writing, in C order, element `k` of `values` (elements of
/// `l.itemsize` bytes) over element `k` of `l`, for each `k < m`.
pub open spec fn scattered(data: Seq<u8>, l: LayoutView, values: Seq<u8>, m: nat) -> Seq<u8>
    decreases m,
{
    if m == 0 {
        data
    } else {
        let prev = scattered(data, l, values, (m - 1) as nat);
        overwrite(prev, nth_offset(l, (m - 1) as nat), element_of(values, l.itemsize as nat, (m - 1) as nat))
    }
}

/// `d` with the bytes from `at` on replaced by `v`.
pub open spec fn overwrite(d: Seq<u8>, at: int, v: Seq<u8>) -> Seq<u8> {
    Seq::new(d.len(), |i: int| if at <= i < at + v.len() { v[i - at] } else { d[i] })
}

proof fn lemma_scattered_len(data: Seq<u8>, l: LayoutView, values: Seq<u8>, m: nat)
    ensures
        scattered(data, l, values, m).len() == data.len(),
    decreases m,
{
    if m > 0 {
        lemma_scattered_len(data, l, values, (m - 1) as nat);
    }
}

/// Writes `v` over `data[at..at + v.len()]`.
fn write_bytes(data: &mut Vec<u8>, at: usize, v: &[u8])
    requires
        at + v@.len() <= old(data)@.len(),
    ensures
        final(data)@ == overwrite(old(data)@, at as int, v@),
{
    let ghost d0 = data@;
    let w = v.len();
    let dlen = data.len();
    let mut j: usize = 0;
    while j < w
        invariant
            j <= w,
            w == v@.len(),
            dlen == data@.len(),
            at + w <= data@.len(),
            data@.len() == d0.len(),
            forall|i: int| 0 <= i < at ==> #[trigger] data@[i] == d0[i],
            forall|i: int| at + w <= i < d0.len() ==> #[trigger] data@[i] == d0[i],
            forall|i: int| at <= i < at + j ==> #[trigger] data@[i] == v@[i - at],
            forall|i: int| at + j <= i < at + w ==> #[trigger] data@[i] == d0[i],
        decreases w - j,
    {
        data.set(at + j, v[j]);
        j = j + 1;
    }
    proof {
        assert(data@ =~= overwrite(d0, at as int, v@));
    }
}

/// Writes element `k` of `values` over element `k` of `layout` in `data`,
/// in C order.
///
/// Fails, leaving `data` unchanged, as [`gather_elements`] does: when the byte count
/// overflows, or at the first element that does not lie within `data`.
pub fn scatter_elements(data: &mut Vec<u8>, layout: &Layout, values: &[u8]) -> (r: MohuResult<()>)
    requires
        values@.len() == shape_product(layout@.shape) * layout@.itemsize,
    ensures
        spec_contiguous_nbytes(layout@.shape, layout@.itemsize) matches Err(e) ==> r == Err::<(), MohuError>(e),
        spec_contiguous_nbytes(layout@.shape, layout@.itemsize) is Ok ==> {
            &&& all_elements_ok(layout@, old(data)@.len()) ==> r is Ok
            &&& !all_elements_ok(layout@, old(data)@.len()) ==> (r matches Err(e) && first_bad_element(
                e,
                layout@,
                old(data)@.len(),
            ))
        },
        r is Ok ==> final(data)@ == scattered(old(data)@, layout@, values@, shape_product(layout@.shape) as nat),
        r is Err ==> final(data)@ == old(data)@,
{
    let _check = gather_elements(data.as_slice(), layout)?;
    let ghost l = layout@;
    let ghost d0 = data@;
    let shape = layout.shape();
    let strides = layout.strides();
    let isz = layout.itemsize();
    let base = layout.offset();
    proof {
        crate::strides::lemma_shape_product_nonneg(shape@);
        if shape@.len() == 0 {
            assert(shape@.take(0) =~= shape@);
        }
        assert(shape@.take(shape@.len() as int) =~= shape@);
        assert(shape_product(shape@.take(shape@.len() as int)) <= isize::MAX);
        assert(prefixes_fit(shape@, usize::MAX as int));
    }
    let mut it = NdIndexIter::new(shape);
    let n = it.total();
    let vlen = values.len();
    let mut k: usize = 0;
    while k < n
        invariant
            k <= n,
            n == shape_product(l.shape),
            it@ == (l.shape, k as nat),
            l == layout@,
            shape@ == l.shape,
            strides@ == l.strides,
            isz == l.itemsize,
            base == l.offset,
            vlen == values@.len(),
            values@.len() == n * isz,
            all_elements_ok(l, d0.len()),
            data@ == scattered(d0, l, values@, k as nat),
            data@.len() == d0.len(),
        decreases n - k,
    {
        let idx = match it.next() {
            Some(v) => v,
            None => {
                proof {
                    assert(false);
                }
                return Err(MohuError::NonContiguous);
            },
        };
        proof {
            assert(element_ok(l, c_index(l.shape, k as nat), d0.len()));
            reveal(element_ok);
        }
        let off = match checked_offset(idx.as_slice(), strides, base) {
            Some(o) => o as usize,
            None => {
                proof {
                    assert(false);
                }
                0
            },
        };
        assert(k * isz + isz <= n * isz) by (nonlinear_arith)
            requires
                k < n,
        ;
        let ghost before = data@;
        let mut piece: Vec<u8> = Vec::new();
        push_bytes(&mut piece, values, k * isz, isz);
        write_bytes(data, off, piece.as_slice());
        proof {
            assert(piece@ == element_of(values@, isz as nat, k as nat));
            assert(data@ == scattered(d0, l, values@, (k + 1) as nat));
            lemma_scattered_len(d0, l, values@, (k + 1) as nat);
        }
        k = k + 1;
    }
    Ok(())
}


// ─── Buffer-level fills and copies ───────────────────────────────────────────

/// The message of the error raised when a fill pattern does not have the
/// element size.
pub open spec fn fill_raw_len_text(got: nat, itemsize: nat) -> Seq<char> {
    "fill_raw: fill_bytes.len()="@ + decimal(got) + " != itemsize="@ + decimal(itemsize)
}

/// Fills every element of `buf` with the bytes `fill_bytes`.
///
/// Fails with `Internal` when `fill_bytes` is not one element long, with
/// `ReadOnly` when `buf` is not writeable, and otherwise as writing the
/// elements does (see [`write_outcome`]); a failure leaves `buf` unchanged.
pub fn fill_raw(buf: &mut Buffer, fill_bytes: &[u8]) -> (r: MohuResult<()>)
    requires
        prefixes_fit(old(buf)@.layout.shape, usize::MAX as int),
        shape_product(old(buf)@.layout.shape) * old(buf)@.layout.itemsize <= usize::MAX,
    ensures
        fill_bytes@.len() != old(buf)@.layout.itemsize ==> (r matches Err(MohuError::Internal(m)) && m@
            == fill_raw_len_text(fill_bytes@.len(), old(buf)@.layout.itemsize as nat) && final(buf)@ == old(
            buf,
        )@),
        fill_bytes@.len() == old(buf)@.layout.itemsize && old(buf)@.flags & 1u8 != 1u8 ==> (r == Err::<
            (),
            MohuError,
        >(MohuError::ReadOnly) && final(buf)@ == old(buf)@),
        fill_bytes@.len() == old(buf)@.layout.itemsize && old(buf)@.flags & 1u8 == 1u8 ==> write_outcome(
            old(buf)@,
            final(buf)@,
            repeated(fill_bytes@, shape_product(old(buf)@.layout.shape) as nat),
            r,
        ),
{
    let isz = buf.itemsize();
    if fill_bytes.len() != isz {
        let mut m = string_of("fill_raw: fill_bytes.len()=");
        push_decimal(&mut m, fill_bytes.len() as u64);
        m.append(" != itemsize=");
        push_decimal(&mut m, isz as u64);
        return Err(MohuError::Internal(m));
    }
    if !buf.is_writeable() {
        return Err(MohuError::ReadOnly);
    }
    let n = buf.len();
    let values = repeat_bytes(fill_bytes, n);
    buf.write_elements(values.as_slice())
}

/// Sets every byte of every element of `buf` to zero.
///
/// Fails with `ReadOnly` when `buf` is not writeable, and otherwise as
/// writing the elements does; a failure leaves `buf` unchanged.
pub fn fill_zero(buf: &mut Buffer) -> (r: MohuResult<()>)
    requires
        prefixes_fit(old(buf)@.layout.shape, usize::MAX as int),
        shape_product(old(buf)@.layout.shape) * old(buf)@.layout.itemsize <= usize::MAX,
    ensures
        old(buf)@.flags & 1u8 != 1u8 ==> (r == Err::<(), MohuError>(MohuError::ReadOnly) && final(buf)@ == old(
            buf,
        )@),
        old(buf)@.flags & 1u8 == 1u8 ==> write_outcome(
            old(buf)@,
            final(buf)@,
            Seq::new(
                (shape_product(old(buf)@.layout.shape) * old(buf)@.layout.itemsize) as nat,
                |i: int| 0u8,
            ),
            r,
        ),
{
    if !buf.is_writeable() {
        return Err(MohuError::ReadOnly);
    }
    let n = buf.nbytes();
    let values = crate::buffer::zero_bytes(n);
    buf.write_elements(values.as_slice())
}

/// Sets every element of `buf` to one, stored in byte order `little`.
///
/// Fails with `ReadOnly` when `buf` is not writeable, and otherwise as
/// writing the elements does; a failure leaves `buf` unchanged.
pub fn fill_one_with_byte_order(buf: &mut Buffer, little: bool) -> (r: MohuResult<()>)
    requires
        prefixes_fit(old(buf)@.layout.shape, usize::MAX as int),
        shape_product(old(buf)@.layout.shape) * old(buf)@.layout.itemsize <= usize::MAX,
    ensures
        old(buf)@.flags & 1u8 != 1u8 ==> (r == Err::<(), MohuError>(MohuError::ReadOnly) && final(buf)@ == old(
            buf,
        )@),
        old(buf)@.flags & 1u8 == 1u8 ==> write_outcome(
            old(buf)@,
            final(buf)@,
            repeated(one_bytes(old(buf)@.dtype, little), shape_product(old(buf)@.layout.shape) as nat),
            r,
        ),
{
    if !buf.is_writeable() {
        return Err(MohuError::ReadOnly);
    }
    let one = one_bytes_vec(buf.dtype(), little);
    let isz = buf.itemsize();
    proof {
        crate::buffer::lemma_one_bytes_len(buf@.dtype, little);
    }
    let n = buf.len();
    let values = repeat_bytes(one.as_slice(), n);
    buf.write_elements(values.as_slice())
}

/// Sets every element of `buf` to one, stored in the host's byte order.
pub fn fill_one(buf: &mut Buffer) -> (r: MohuResult<()>)
    requires
        prefixes_fit(old(buf)@.layout.shape, usize::MAX as int),
        shape_product(old(buf)@.layout.shape) * old(buf)@.layout.itemsize <= usize::MAX,
    ensures
        old(buf)@.flags & 1u8 != 1u8 ==> (r == Err::<(), MohuError>(MohuError::ReadOnly) && final(buf)@ == old(
            buf,
        )@),
        old(buf)@.flags & 1u8 == 1u8 ==> write_outcome(
            old(buf)@,
            final(buf)@,
            repeated(one_bytes(old(buf)@.dtype, true), shape_product(old(buf)@.layout.shape) as nat),
            r,
        ) || write_outcome(
            old(buf)@,
            final(buf)@,
            repeated(one_bytes(old(buf)@.dtype, false), shape_product(old(buf)@.layout.shape) as nat),
            r,
        ),
{
    let little = crate::compat::ByteOrder::host_is_little_endian();
    fill_one_with_byte_order(buf, little)
}

/// The outcome of copying the elements of `src` over those of `dst`, both
/// in C order: `DTypeMismatch` when the dtypes differ, `ShapeMismatch` when
/// the element counts differ, `ReadOnly` when `dst` is not writeable, a
/// failure to read `src` or to write `dst` as [`gather_elements`] describes; a
/// failure leaves `dst` unchanged.
pub open spec fn copy_outcome(src: BufferView, before: BufferView, after: BufferView, r: MohuResult<()>) -> bool {
    if src.dtype != before.dtype {
        &&& r matches Err(MohuError::DTypeMismatch { expected, got }) && expected@ == spec_numpy_str(src.dtype)
            && got@ == spec_numpy_str(before.dtype)
        &&& after == before
    } else if shape_product(src.layout.shape) != shape_product(before.layout.shape) {
        &&& r matches Err(MohuError::ShapeMismatch { expected, got }) && expected@ == src.layout.shape && got@
            == before.layout.shape
        &&& after == before
    } else if before.flags & 1u8 != 1u8 {
        r == Err::<(), MohuError>(MohuError::ReadOnly) && after == before
    } else if !(spec_contiguous_nbytes(src.layout.shape, src.layout.itemsize) is Ok && all_elements_ok(
        src.layout,
        src.data.len(),
    )) {
        &&& after == before
        &&& spec_contiguous_nbytes(src.layout.shape, src.layout.itemsize) matches Err(e) ==> r == Err::<
            (),
            MohuError,
        >(e)
        &&& spec_contiguous_nbytes(src.layout.shape, src.layout.itemsize) is Ok ==> (r matches Err(e)
            && first_bad_element(e, src.layout, src.data.len()))
    } else {
        write_outcome(before, after, gathered(src.data, src.layout), r)
    }
}

/// Copies every element of `src` over the element of `dst` at the same
/// C-order position; fails as [`copy_outcome`] describes.
pub fn copy_to_contiguous(src: &Buffer, dst: &mut Buffer) -> (r: MohuResult<()>)
    requires
        prefixes_fit(src@.layout.shape, usize::MAX as int),
        prefixes_fit(old(dst)@.layout.shape, usize::MAX as int),
    ensures
        copy_outcome(src@, old(dst)@, final(dst)@, r),
{
    if src.dtype() != dst.dtype() {
        return Err(MohuError::DTypeMismatch { expected: src.dtype().to_string(), got: dst.dtype().to_string() });
    }
    if src.len() != dst.len() {
        return Err(MohuError::ShapeMismatch { expected: slice_to_vec(src.shape()), got: slice_to_vec(dst.shape()) });
    }
    if !dst.is_writeable() {
        return Err(MohuError::ReadOnly);
    }
    let _src_isz = src.itemsize();
    let _dst_isz = dst.itemsize();
    let values = src.to_bytes()?;
    proof {
        reveal(gathered);
    }
    dst.write_elements(values.as_slice())
}


// ─── Copies in another order ─────────────────────────────────────────────────

/// Every element of `b` can be read: the byte count does not overflow and
/// every element lies within the backing bytes.
pub open spec fn readable(b: BufferView) -> bool {
    spec_contiguous_nbytes(b.layout.shape, b.layout.itemsize) is Ok && all_elements_ok(b.layout, b.data.len())
}

/// `r` is the failure of reading the elements of `b`, which are not
/// [`readable`].
pub open spec fn read_failure(b: BufferView, r: MohuResult<()>) -> bool {
    &&& spec_contiguous_nbytes(b.layout.shape, b.layout.itemsize) matches Err(e) ==> r == Err::<(), MohuError>(e)
    &&& spec_contiguous_nbytes(b.layout.shape, b.layout.itemsize) is Ok ==> (r matches Err(e) && first_bad_element(
        e,
        b.layout,
        b.data.len(),
    ))
}

/// The message of the error [`flip_axis_copy`] raises for an axis that does
/// not exist.
pub open spec fn flip_copy_axis_text(axis: nat, ndim: nat) -> Seq<char> {
    "flip_axis_copy: axis "@ + decimal(axis) + " out of bounds for ndim "@ + decimal(ndim)
}

/// The outcome of copying `src` with axis `axis` reversed over `before`:
/// `DTypeMismatch`, `ShapeMismatch` (the shapes differ), `Internal` (no such
/// axis), `NonContiguous` (`before` is not C-contiguous) and `ReadOnly`, in
/// that order; then the failures of [`Buffer::flip`] on `src` and of
/// reading the reversed view; else element `k` of the reversed view, in C
/// order, is written over element `k` of `before`. A failure leaves
/// `before` unchanged.
pub open spec fn flip_copy_outcome(
    src: BufferView,
    before: BufferView,
    after: BufferView,
    axis: nat,
    r: MohuResult<()>,
) -> bool {
    let l = src.layout;
    let st = l.strides.update(axis as int, (-l.strides[axis as int]) as isize);
    let fl = layout_of(l.shape, st, flipped_offset(l, axis as int) as usize, l.itemsize);
    let view = BufferView { layout: fl, ..src };
    if src.dtype != before.dtype {
        &&& r matches Err(MohuError::DTypeMismatch { expected, got }) && expected@ == spec_numpy_str(src.dtype)
            && got@ == spec_numpy_str(before.dtype)
        &&& after == before
    } else if l.shape != before.layout.shape {
        &&& r matches Err(MohuError::ShapeMismatch { expected, got }) && expected@ == l.shape && got@
            == before.layout.shape
        &&& after == before
    } else if axis >= l.shape.len() {
        &&& r matches Err(MohuError::Internal(m)) && m@ == flip_copy_axis_text(axis, l.shape.len())
        &&& after == before
    } else if !c_contiguous(before.layout) {
        r == Err::<(), MohuError>(MohuError::NonContiguous) && after == before
    } else if before.flags & 1u8 != 1u8 {
        r == Err::<(), MohuError>(MohuError::ReadOnly) && after == before
    } else if flipped_offset(l, axis as int) < 0 {
        &&& r matches Err(MohuError::Internal(m)) && m@ == "flip: computed offset is negative"@
        &&& after == before
    } else if !custom_ok(l.shape, st, l.itemsize) {
        &&& r matches Err(e) && custom_error(e, l.shape, st, l.itemsize)
        &&& after == before
    } else if !readable(view) {
        read_failure(view, r) && after == before
    } else {
        write_outcome(before, after, gathered(src.data, fl), r)
    }
}

/// Copies the elements of `src` with axis `axis` reversed over those of the
/// C-contiguous `dst`; fails as [`flip_copy_outcome`] describes.
pub fn flip_axis_copy(src: &Buffer, dst: &mut Buffer, axis: usize) -> (r: MohuResult<()>)
    requires
        axis < src@.layout.shape.len() ==> flip_fits(src@.layout, axis as int),
    ensures
        flip_copy_outcome(src@, old(dst)@, final(dst)@, axis as nat, r),
{
    if src.dtype() != dst.dtype() {
        return Err(MohuError::DTypeMismatch { expected: src.dtype().to_string(), got: dst.dtype().to_string() });
    }
    if !usize_slices_equal(src.shape(), dst.shape()) {
        return Err(MohuError::ShapeMismatch { expected: slice_to_vec(src.shape()), got: slice_to_vec(dst.shape()) });
    }
    let nd = src.ndim();
    if axis >= nd {
        let mut m = string_of("flip_axis_copy: axis ");
        push_decimal(&mut m, axis as u64);
        m.append(" out of bounds for ndim ");
        push_decimal(&mut m, nd as u64);
        return Err(MohuError::Internal(m));
    }
    if !dst.is_c_contiguous() {
        return Err(MohuError::NonContiguous);
    }
    if !dst.is_writeable() {
        return Err(MohuError::ReadOnly);
    }
    let _src_isz = src.itemsize();
    let _dst_isz = dst.itemsize();
    let flipped = src.flip(axis)?;
    let values = match flipped.to_bytes() {
        Ok(v) => v,
        Err(e) => return Err(e),
    };
    proof {
        reveal(gathered);
        assert(spec_contiguous_nbytes(flipped@.layout.shape, flipped@.layout.itemsize) is Ok);
        assert(all_elements_ok(flipped@.layout, flipped@.data.len()));
        crate::strides::lemma_shape_product_nonneg(src@.layout.shape);
        assert(shape_product(src@.layout.shape) * src@.layout.itemsize >= 0) by (nonlinear_arith)
            requires
                shape_product(src@.layout.shape) >= 0,
        ;
    }
    dst.write_elements(values.as_slice())
}


// ─── Indexed gather and scatter ──────────────────────────────────────────────

/// The unsigned value of `b`, most significant byte first.
pub open spec fn be_value(b: Seq<u8>) -> nat
    decreases b.len(),
{
    if b.len() == 0 {
        0
    } else {
        be_value(b.drop_last()) * 256 + b.last() as nat
    }
}

/// `b` with its bytes in the opposite order.
pub open spec fn byte_reversed(b: Seq<u8>) -> Seq<u8> {
    Seq::new(b.len(), |i: int| b[b.len() - 1 - i])
}

/// The two's-complement value of the eight bytes `b`, least significant
/// byte first when `little`.
pub open spec fn i64_of_bytes(b: Seq<u8>, little: bool) -> int {
    let u = uint_of_bytes(b, little);
    if u < 0x8000_0000_0000_0000 {
        u as int
    } else {
        u - 0x1_0000_0000_0000_0000
    }
}

/// `256` to the power `j`.
pub open spec fn pow256(j: nat) -> nat
    decreases j,
{
    if j == 0 {
        1
    } else {
        pow256((j - 1) as nat) * 256
    }
}

proof fn lemma_be_value_bound(b: Seq<u8>)
    ensures
        be_value(b) < pow256(b.len()),
    decreases b.len(),
{
    if b.len() > 0 {
        lemma_be_value_bound(b.drop_last());
        let v = be_value(b.drop_last());
        let p = pow256(b.drop_last().len());
        let x = b.last();
        assert(v * 256 + x < p * 256) by (nonlinear_arith)
            requires
                v < p,
                x < 256,
        ;
    }
}

proof fn lemma_pow256_mono(i: nat, j: nat)
    requires
        i <= j,
    ensures
        pow256(i) <= pow256(j),
    decreases j - i,
{
    if i < j {
        lemma_pow256_mono(i, (j - 1) as nat);
    }
}

/// The unsigned value of the bytes `b`, least significant byte first when
/// `little`.
pub open spec fn uint_of_bytes(b: Seq<u8>, little: bool) -> nat {
    if little {
        be_value(byte_reversed(b))
    } else {
        be_value(b)
    }
}

/// Decodes the unsigned integer stored in `b[at..at + w]`, least
/// significant byte first when `little`.
pub fn read_uint(b: &[u8], at: usize, w: usize, little: bool) -> (r: u64)
    requires
        w <= 8,
        at + w <= b@.len(),
    ensures
        r == uint_of_bytes(b@.subrange(at as int, at + w), little),
{
    let ghost v = b@.subrange(at as int, at + w);
    let ghost src = if little {
        byte_reversed(v)
    } else {
        v
    };
    let n = b.len();
    let mut u: u64 = 0;
    let mut j: usize = 0;
    while j < w
        invariant
            j <= w <= 8,
            n == b@.len(),
            at + w <= b@.len(),
            v == b@.subrange(at as int, at + w),
            src == (if little {
                byte_reversed(v)
            } else {
                v
            }),
            src.len() == w,
            u == be_value(src.take(j as int)),
        decreases w - j,
    {
        let byte = if little {
            b[at + w - 1 - j]
        } else {
            b[at + j]
        };
        proof {
            assert(byte == src[j as int]);
            lemma_be_value_bound(src.take(j as int));
            lemma_pow256_mono(j as nat, 7);
            assert(pow256(7) == 0x100_0000_0000_0000) by {
                reveal_with_fuel(pow256, 8);
            }
            assert(src.take(j + 1).drop_last() =~= src.take(j as int));
            assert(u * 256 + byte < 0x1_0000_0000_0000_0000) by (nonlinear_arith)
                requires
                    u < 0x100_0000_0000_0000,
                    byte < 256,
            ;
        }
        u = u * 256 + byte as u64;
        j = j + 1;
    }
    proof {
        assert(src.take(w as int) =~= src);
    }
    u
}

/// Decodes the `i64` stored in `b[at..at + 8]`, least significant byte
/// first when `little`.
pub fn read_i64(b: &[u8], at: usize, little: bool) -> (r: i64)
    requires
        at + 8 <= b@.len(),
    ensures
        r == i64_of_bytes(b@.subrange(at as int, at + 8), little),
{
    let u = read_uint(b, at, 8, little);
    if u < 0x8000_0000_0000_0000 {
        u as i64
    } else {
        ((u - 0x8000_0000_0000_0000) as i64) - 0x7fff_ffff_ffff_ffff - 1
    }
}

/// Where index `idx` points along an axis of `len` elements: counted back
/// from the end when negative; a negative position before the start wraps
/// around as the conversion to `usize` does.
pub open spec fn wrapped_position(idx: i64, len: usize) -> usize {
    if idx < 0 {
        (len + idx) as usize
    } else {
        idx as usize
    }
}

/// [`wrapped_position`], held to the last element (to 0 when `len == 0`).
pub open spec fn clamped_position(idx: i64, len: usize) -> usize {
    let p = wrapped_position(idx, len);
    if len == 0 {
        0
    } else if p < len {
        p
    } else {
        (len - 1) as usize
    }
}

/// Index `i` of a store of `i64` indices.
pub open spec fn index_at(idx: Seq<u8>, i: int, little: bool) -> i64 {
    i64_of_bytes(idx.subrange(8 * i, 8 * i + 8), little) as i64
}

/// Computes [`wrapped_position`].
fn wrap_position(idx: i64, len: usize) -> (r: usize)
    ensures
        r == wrapped_position(idx, len),
{
    if idx < 0 {
        (len as i128 + idx as i128) as usize
    } else {
        idx as usize
    }
}

/// The elements (of `isz` bytes) of a gather from the `len` elements `src`:
/// element `i` is the element of `src` at [`clamped_position`] of index `i`.
pub open spec fn taken(src: Seq<u8>, isz: nat, len: usize, idx: Seq<u8>, n: nat, little: bool) -> Seq<u8> {
    Seq::new(
        n * isz,
        |q: int| src[clamped_position(index_at(idx, q / (isz as int), little), len) * isz + q % (isz as int)],
    )
}

/// Every check of [`gather`] passes.
pub open spec fn gather_checks(src: BufferView, indices: BufferView, before: BufferView) -> bool {
    &&& indices.dtype == DType::I64
    &&& src.dtype == before.dtype
    &&& c_contiguous(src.layout) && c_contiguous(indices.layout) && c_contiguous(before.layout)
    &&& shape_product(indices.layout.shape) == shape_product(before.layout.shape)
    &&& before.flags & 1u8 == 1u8
}

/// The outcome of gathering `dst[i] = src[indices[i]]` into `before`, the
/// `i64` indices read least significant byte first when `little`:
/// `DTypeMismatch` when the indices are not `I64` or `src` and `dst` differ
/// in dtype, `NonContiguous` unless all three are C-contiguous,
/// `ShapeMismatch` when `indices` and `dst` differ in length, `ReadOnly`,
/// in that order; then a failure to read `src` or the indices; else the
/// elements [`taken`] are written over those of `before`. A failure leaves
/// `before` unchanged.
pub open spec fn gather_outcome(
    src: BufferView,
    indices: BufferView,
    before: BufferView,
    after: BufferView,
    little: bool,
    r: MohuResult<()>,
) -> bool {
    let n = shape_product(indices.layout.shape);
    if indices.dtype != DType::I64 {
        &&& r matches Err(MohuError::DTypeMismatch { expected, got }) && expected@ == "I64"@ && got@
            == spec_numpy_str(indices.dtype)
        &&& after == before
    } else if src.dtype != before.dtype {
        &&& r matches Err(MohuError::DTypeMismatch { expected, got }) && expected@ == spec_numpy_str(src.dtype)
            && got@ == spec_numpy_str(before.dtype)
        &&& after == before
    } else if !(c_contiguous(src.layout) && c_contiguous(indices.layout) && c_contiguous(before.layout)) {
        r == Err::<(), MohuError>(MohuError::NonContiguous) && after == before
    } else if n != shape_product(before.layout.shape) {
        &&& r matches Err(MohuError::ShapeMismatch { expected, got }) && expected@ == indices.layout.shape
            && got@ == before.layout.shape
        &&& after == before
    } else if before.flags & 1u8 != 1u8 {
        r == Err::<(), MohuError>(MohuError::ReadOnly) && after == before
    } else if !readable(src) {
        read_failure(src, r) && after == before
    } else if !readable(indices) {
        read_failure(indices, r) && after == before
    } else {
        write_outcome(
            before,
            after,
            taken(
                gathered(src.data, src.layout),
                src.layout.itemsize as nat,
                shape_product(src.layout.shape) as usize,
                gathered(indices.data, indices.layout),
                n as nat,
                little,
            ),
            r,
        )
    }
}

/// The bytes of the elements of `b` in C order, or the failure to read them.
fn read_elements(b: &Buffer) -> (r: Result<Vec<u8>, MohuError>)
    ensures
        readable(b@) ==> (r matches Ok(v) && v@ == gathered(b@.data, b@.layout)),
        !readable(b@) ==> (r matches Err(e) && read_failure(b@, Err(e))),
{
    let r = b.to_bytes();
    match r {
        Ok(v) => Ok(v),
        Err(e) => Err(e),
    }
}

/// Gathers `dst[i] = src[indices[i]]` over C-contiguous buffers, the `i64`
/// indices read least significant byte first when `little`; an index counts
/// back from the end when negative and is held to the last element of
/// `src`. Fails as [`gather_outcome`] describes.
pub fn gather_with_byte_order(src: &Buffer, indices: &Buffer, dst: &mut Buffer, little: bool) -> (r: MohuResult<()>)
    requires
        prefixes_fit(src@.layout.shape, isize::MAX as int),
        prefixes_fit(indices@.layout.shape, usize::MAX as int),
        prefixes_fit(old(dst)@.layout.shape, usize::MAX as int),
        shape_product(old(dst)@.layout.shape) * old(dst)@.layout.itemsize <= usize::MAX,
        gather_checks(src@, indices@, old(dst)@) && shape_product(indices@.layout.shape) > 0 ==> shape_product(
            src@.layout.shape,
        ) > 0,
    ensures
        gather_outcome(src@, indices@, old(dst)@, final(dst)@, little, r),
{
    if indices.dtype() != DType::I64 {
        proof {
            reveal_strlit("I64");
        }
        return Err(MohuError::DTypeMismatch { expected: string_of("I64"), got: indices.dtype().to_string() });
    }
    if src.dtype() != dst.dtype() {
        return Err(MohuError::DTypeMismatch { expected: src.dtype().to_string(), got: dst.dtype().to_string() });
    }
    if !src.is_c_contiguous() || !indices.is_c_contiguous() || !dst.is_c_contiguous() {
        return Err(MohuError::NonContiguous);
    }
    let n = indices.len();
    if n != dst.len() {
        return Err(MohuError::ShapeMismatch { expected: slice_to_vec(indices.shape()), got: slice_to_vec(dst.shape()) });
    }
    if !dst.is_writeable() {
        return Err(MohuError::ReadOnly);
    }
    proof {
        assert(prefixes_fit(src@.layout.shape, usize::MAX as int));
    }
    let s = read_elements(src)?;
    let ix = read_elements(indices)?;
    let isz = src.itemsize();
    let _ix_isz = indices.itemsize();
    let _dst_isz = dst.itemsize();
    let len = src.len();
    proof {
        reveal(gathered);
        crate::strides::lemma_shape_product_nonneg(src@.layout.shape);
        crate::strides::lemma_shape_product_nonneg(indices@.layout.shape);
    }
    let ghost target = taken(s@, isz as nat, len, ix@, n as nat, little);
    let slen = s.len();
    let ixlen = ix.len();
    let mut out: Vec<u8> = Vec::new();
    let mut i: usize = 0;
    while i < n
        invariant
            i <= n,
            slen == s@.len(),
            ixlen == ix@.len(),
            isz > 0,
            s@.len() == len * isz,
            ix@.len() == n * 8,
            n > 0 ==> len > 0,
            n * isz <= usize::MAX,
            target == taken(s@, isz as nat, len, ix@, n as nat, little),
            out@.len() == i * isz,
            forall|q: int| 0 <= q < i * isz ==> #[trigger] out@[q] == target[q],
        decreases n - i,
    {
        assert(8 * i + 8 <= ix@.len()) by (nonlinear_arith)
            requires
                i < n,
                ix@.len() == n * 8,
        ;
        let idx = read_i64(ix.as_slice(), 8 * i, little);
        let w = wrap_position(idx, len);
        let p = if w < len {
            w
        } else {
            len - 1
        };
        proof {
            assert(p * isz + isz <= len * isz) by (nonlinear_arith)
                requires
                    p < len,
            ;
            assert((i + 1) * isz <= n * isz) by (nonlinear_arith)
                requires
                    i < n,
            ;
        }
        let ghost before = out@;
        push_bytes(&mut out, s.as_slice(), p * isz, isz);
        proof {
            let piece = s@.subrange(p * isz, p * isz + isz);
            assert forall|j: int| 0 <= j < isz implies #[trigger] piece[j] == target[i * isz + j] by {
                crate::buffer::lemma_element_pos(i as int, j, isz as int);
                assert(i * isz + j < (i + 1) * isz) by (nonlinear_arith)
                    requires
                        j < isz,
                ;
                assert(idx == index_at(ix@, i as int, little));
            }
            crate::buffer::lemma_append_element(target, isz as nat, i as nat, before, piece);
        }
        i = i + 1;
    }
    proof {
        assert(out@ =~= target);
    }
    dst.write_elements(out.as_slice())
}


/// Gathers `dst[i] = src[indices[i]]` over C-contiguous buffers, the `i64`
/// indices read in the host's byte order; fails as [`gather_outcome`]
/// describes.
pub fn gather(src: &Buffer, indices: &Buffer, dst: &mut Buffer) -> (r: MohuResult<()>)
    requires
        prefixes_fit(src@.layout.shape, isize::MAX as int),
        prefixes_fit(indices@.layout.shape, usize::MAX as int),
        prefixes_fit(old(dst)@.layout.shape, usize::MAX as int),
        shape_product(old(dst)@.layout.shape) * old(dst)@.layout.itemsize <= usize::MAX,
        gather_checks(src@, indices@, old(dst)@) && shape_product(indices@.layout.shape) > 0 ==> shape_product(
            src@.layout.shape,
        ) > 0,
    ensures
        gather_outcome(src@, indices@, old(dst)@, final(dst)@, true, r) || gather_outcome(
            src@,
            indices@,
            old(dst)@,
            final(dst)@,
            false,
            r,
        ),
{
    let little = crate::compat::ByteOrder::host_is_little_endian();
    gather_with_byte_order(src, indices, dst, little)
}

/// The elements (of `isz` bytes) of `d`, a store of `len` elements, after
/// the first `k` writes of a scatter: write `i` puts element `i` of `src` at
/// the [`wrapped_position`] of index `i` when that lies below `len`, and
/// is skipped otherwise; a later write to a position wins.
pub open spec fn put_applied(
    d: Seq<u8>,
    src: Seq<u8>,
    isz: nat,
    len: usize,
    idx: Seq<u8>,
    k: nat,
    little: bool,
) -> Seq<u8>
    decreases k,
{
    if k == 0 {
        d
    } else {
        let prev = put_applied(d, src, isz, len, idx, (k - 1) as nat, little);
        let j = wrapped_position(index_at(idx, k - 1, little), len);
        if j < len {
            overwrite(prev, j * isz, src.subrange((k - 1) * isz, (k * isz) as int))
        } else {
            prev
        }
    }
}

/// Every check of [`scatter`] passes.
pub open spec fn scatter_checks(src: BufferView, indices: BufferView, before: BufferView) -> bool {
    &&& indices.dtype == DType::I64
    &&& src.dtype == before.dtype
    &&& c_contiguous(src.layout) && c_contiguous(indices.layout) && c_contiguous(before.layout)
    &&& shape_product(indices.layout.shape) == shape_product(src.layout.shape)
    &&& before.flags & 1u8 == 1u8
}

/// The outcome of scattering `dst[indices[i]] = src[i]` into `before`, the
/// `i64` indices read least significant byte first when `little`:
/// `DTypeMismatch` when the indices are not `I64` or `src` and `dst` differ
/// in dtype, `NonContiguous` unless all three are C-contiguous,
/// `ShapeMismatch` when `indices` and `src` differ in length, `ReadOnly`,
/// in that order; then a failure to read `src`, the indices or `dst`; else
/// the elements of `dst` after [`put_applied`] are written back. A failure
/// leaves `before` unchanged.
pub open spec fn scatter_outcome(
    src: BufferView,
    indices: BufferView,
    before: BufferView,
    after: BufferView,
    little: bool,
    r: MohuResult<()>,
) -> bool {
    let n = shape_product(indices.layout.shape);
    if indices.dtype != DType::I64 {
        &&& r matches Err(MohuError::DTypeMismatch { expected, got }) && expected@ == "I64"@ && got@
            == spec_numpy_str(indices.dtype)
        &&& after == before
    } else if src.dtype != before.dtype {
        &&& r matches Err(MohuError::DTypeMismatch { expected, got }) && expected@ == spec_numpy_str(src.dtype)
            && got@ == spec_numpy_str(before.dtype)
        &&& after == before
    } else if !(c_contiguous(src.layout) && c_contiguous(indices.layout) && c_contiguous(before.layout)) {
        r == Err::<(), MohuError>(MohuError::NonContiguous) && after == before
    } else if n != shape_product(src.layout.shape) {
        &&& r matches Err(MohuError::ShapeMismatch { expected, got }) && expected@ == indices.layout.shape
            && got@ == src.layout.shape
        &&& after == before
    } else if before.flags & 1u8 != 1u8 {
        r == Err::<(), MohuError>(MohuError::ReadOnly) && after == before
    } else if !readable(src) {
        read_failure(src, r) && after == before
    } else if !readable(indices) {
        read_failure(indices, r) && after == before
    } else if !readable(before) {
        read_failure(before, r) && after == before
    } else {
        write_outcome(
            before,
            after,
            put_applied(
                gathered(before.data, before.layout),
                gathered(src.data, src.layout),
                src.layout.itemsize as nat,
                shape_product(before.layout.shape) as usize,
                gathered(indices.data, indices.layout),
                n as nat,
                little,
            ),
            r,
        )
    }
}

proof fn lemma_put_applied_len(d: Seq<u8>, src: Seq<u8>, isz: nat, len: usize, idx: Seq<u8>, k: nat, little: bool)
    ensures
        put_applied(d, src, isz, len, idx, k, little).len() == d.len(),
    decreases k,
{
    if k > 0 {
        lemma_put_applied_len(d, src, isz, len, idx, (k - 1) as nat, little);
    }
}

/// Scatters `dst[indices[i]] = src[i]` over C-contiguous buffers, in order
/// of `i`, the `i64` indices read least significant byte first when
/// `little`; an index counts back from the end when negative, and one that
/// does not then point into `dst` is skipped. Fails as [`scatter_outcome`]
/// describes.
pub fn scatter_with_byte_order(dst: &mut Buffer, indices: &Buffer, src: &Buffer, little: bool) -> (r: MohuResult<()>)
    requires
        prefixes_fit(src@.layout.shape, usize::MAX as int),
        prefixes_fit(indices@.layout.shape, usize::MAX as int),
        prefixes_fit(old(dst)@.layout.shape, isize::MAX as int),
    ensures
        scatter_outcome(src@, indices@, old(dst)@, final(dst)@, little, r),
{
    if indices.dtype() != DType::I64 {
        proof {
            reveal_strlit("I64");
        }
        return Err(MohuError::DTypeMismatch { expected: string_of("I64"), got: indices.dtype().to_string() });
    }
    if src.dtype() != dst.dtype() {
        return Err(MohuError::DTypeMismatch { expected: src.dtype().to_string(), got: dst.dtype().to_string() });
    }
    if !src.is_c_contiguous() || !indices.is_c_contiguous() || !dst.is_c_contiguous() {
        return Err(MohuError::NonContiguous);
    }
    let n = indices.len();
    if n != src.len() {
        return Err(MohuError::ShapeMismatch { expected: slice_to_vec(indices.shape()), got: slice_to_vec(src.shape()) });
    }
    if !dst.is_writeable() {
        return Err(MohuError::ReadOnly);
    }
    let s = read_elements(src)?;
    let ix = read_elements(indices)?;
    proof {
        assert(prefixes_fit(old(dst)@.layout.shape, usize::MAX as int));
    }
    let mut out = read_elements(dst)?;
    let isz = src.itemsize();
    let _ix_isz = indices.itemsize();
    let _dst_isz = dst.itemsize();
    let len = dst.len();
    proof {
        reveal(gathered);
        crate::strides::lemma_shape_product_nonneg(src@.layout.shape);
        crate::strides::lemma_shape_product_nonneg(indices@.layout.shape);
        crate::strides::lemma_shape_product_nonneg(dst@.layout.shape);
    }
    let ghost d0 = out@;
    let slen = s.len();
    let ixlen = ix.len();
    let olen = out.len();
    let mut i: usize = 0;
    while i < n
        invariant
            i <= n,
            isz > 0,
            slen == s@.len(),
            ixlen == ix@.len(),
            s@.len() == n * isz,
            ix@.len() == n * 8,
            d0.len() == len * isz,
            olen == out@.len(),
            out@ == put_applied(d0, s@, isz as nat, len, ix@, i as nat, little),
        decreases n - i,
    {
        assert(8 * i + 8 <= ix@.len()) by (nonlinear_arith)
            requires
                i < n,
                ix@.len() == n * 8,
        ;
        let idx = read_i64(ix.as_slice(), 8 * i, little);
        let j = wrap_position(idx, len);
        proof {
            lemma_put_applied_len(d0, s@, isz as nat, len, ix@, i as nat, little);
            assert(i * isz + isz <= slen) by (nonlinear_arith)
                requires
                    i < n,
                    slen == n * isz,
            ;
            assert(idx == index_at(ix@, i as int, little));
            assert((i + 1) * isz == i * isz + isz) by (nonlinear_arith);
        }
        let ghost prev = out@;
        if j < len {
            proof {
                assert(j * isz + isz <= len * isz) by (nonlinear_arith)
                    requires
                        j < len,
                ;
            }
            let piece = slice_subrange(s.as_slice(), i * isz, i * isz + isz);
            write_bytes(&mut out, j * isz, piece);
        }
        proof {
            assert(prev == put_applied(d0, s@, isz as nat, len, ix@, i as nat, little));
            assert(out@ == put_applied(d0, s@, isz as nat, len, ix@, (i + 1) as nat, little));
        }
        i = i + 1;
    }
    dst.write_elements(out.as_slice())
}

/// Scatters `dst[indices[i]] = src[i]` over C-contiguous buffers, the `i64`
/// indices read in the host's byte order; fails as [`scatter_outcome`]
/// describes.
pub fn scatter(dst: &mut Buffer, indices: &Buffer, src: &Buffer) -> (r: MohuResult<()>)
    requires
        prefixes_fit(src@.layout.shape, usize::MAX as int),
        prefixes_fit(indices@.layout.shape, usize::MAX as int),
        prefixes_fit(old(dst)@.layout.shape, isize::MAX as int),
    ensures
        scatter_outcome(src@, indices@, old(dst)@, final(dst)@, true, r) || scatter_outcome(
            src@,
            indices@,
            old(dst)@,
            final(dst)@,
            false,
            r,
        ),
{
    let little = crate::compat::ByteOrder::host_is_little_endian();
    scatter_with_byte_order(dst, indices, src, little)
}


// ─── Position of the least and greatest element ──────────────────────────────

/// `2^(w - 1)` for an element type of `w` bits: the weight of its sign bit.
pub open spec fn sign_weight(d: DType) -> nat {
    match d {
        DType::I8 => 0x80,
        DType::I16 | DType::F16 | DType::BF16 => 0x8000,
        DType::I32 | DType::F32 => 0x8000_0000,
        DType::I64 | DType::F64 => 0x8000_0000_0000_0000,
        _ => 0,
    }
}

/// The bit pattern of positive infinity of a floating-point element type:
/// a magnitude above it is a NaN.
pub open spec fn infinity_bits(d: DType) -> nat {
    match d {
        DType::F16 => 0x7C00,
        DType::BF16 => 0x7F80,
        DType::F32 => 0x7F80_0000,
        DType::F64 => 0x7FF0_0000_0000_0000,
        _ => 0,
    }
}

/// How the element with bytes `b` compares, as a key and a NaN mark: an
/// integer (or `bool`) by its value; a binary floating-point number by the
/// signed magnitude of its bit pattern, which orders as the number does and
/// makes the two zeros equal, marked NaN when the magnitude lies above that
/// of infinity. Bytes are least significant first when `little`.
pub open spec fn elem_order(d: DType, b: Seq<u8>, little: bool) -> (int, bool) {
    let u = uint_of_bytes(b, little);
    let h = sign_weight(d);
    if spec_is_signed_integer(d) {
        (if u >= h { u - 2 * h } else { u as int }, false)
    } else if d == DType::F16 || d == DType::BF16 || d == DType::F32 || d == DType::F64 {
        let mag = if u >= h { (u - h) as int } else { u as int };
        (if u >= h { -mag } else { mag }, mag > infinity_bits(d))
    } else {
        (u as int, false)
    }
}

/// The order of element `i` of the C-order element bytes `g`.
pub open spec fn order_at(g: Seq<u8>, d: DType, isz: nat, i: int, little: bool) -> (int, bool) {
    elem_order(d, g.subrange(i * isz, i * isz + isz), little)
}

/// `a <= b` (or `a >= b` when `max`) between two compared elements: false
/// when either is NaN.
pub open spec fn keeps(a: (int, bool), b: (int, bool), max: bool) -> bool {
    !a.1 && !b.1 && (if max {
        a.0 >= b.0
    } else {
        a.0 <= b.0
    })
}

/// The position of the least (or, when `max`, the greatest) of the first
/// `n` elements, folding from the front: the position held so far is kept
/// while it compares [`keeps`] with the next element, else the next one is
/// taken, so among equal extremes the first is found.
pub open spec fn extreme_index(g: Seq<u8>, d: DType, isz: nat, n: nat, little: bool, max: bool) -> nat
    decreases n,
{
    if n <= 1 {
        0
    } else {
        let j = extreme_index(g, d, isz, (n - 1) as nat, little, max);
        let a = order_at(g, d, isz, j as int, little);
        let b = order_at(g, d, isz, n - 1, little);
        if keeps(a, b, max) {
            j
        } else {
            (n - 1) as nat
        }
    }
}

/// The outcome of locating the least (greatest, when `max`) element of `b`,
/// floats read least significant byte first when `little`:
/// `UnsupportedDType` for complex elements, position 0 for an empty buffer,
/// a failure to read the elements, else [`extreme_index`].
pub open spec fn extreme_outcome(b: BufferView, little: bool, max: bool, r: MohuResult<usize>) -> bool {
    let isz = b.layout.itemsize as nat;
    if b.dtype == DType::C64 || b.dtype == DType::C128 {
        r matches Err(MohuError::UnsupportedDType { op, dtype }) && op@ == (if max {
            "argmax_flat"@
        } else {
            "argmin_flat"@
        }) && dtype@ == spec_numpy_str(b.dtype)
    } else if b.layout.shape.contains(0) {
        r == Ok::<usize, MohuError>(0)
    } else if !readable(b) {
        read_failure(
            b,
            match r {
                Ok(_) => Ok(()),
                Err(e) => Err(e),
            },
        )
    } else {
        r == Ok::<usize, MohuError>(
            extreme_index(
                gathered(b.data, b.layout),
                b.dtype,
                isz,
                shape_product(b.layout.shape) as nat,
                little,
                max,
            ) as usize,
        )
    }
}

/// The order of the element at `b[at..at + isz]` (see [`elem_order`]).
fn element_order(d: DType, b: &[u8], at: usize, little: bool) -> (r: (i128, bool))
    requires
        at + spec_itemsize(d) <= b@.len(),
        spec_itemsize(d) <= 8,
    ensures
        (r.0 as int, r.1) == elem_order(d, b@.subrange(at as int, at + spec_itemsize(d)), little),
{
    let w = d.itemsize();
    let u = read_uint(b, at, w, little);
    if d.is_signed_integer() {
        let h: u64 = match d {
            DType::I8 => 0x80,
            DType::I16 => 0x8000,
            DType::I32 => 0x8000_0000,
            _ => 0x8000_0000_0000_0000,
        };
        proof {
            assert(h == sign_weight(d));
        }
        let k: i128 = if u >= h {
            u as i128 - 2 * (h as i128)
        } else {
            u as i128
        };
        (k, false)
    } else if d == DType::F16 || d == DType::BF16 || d == DType::F32 || d == DType::F64 {
        let (h, inf): (u64, u64) = match d {
            DType::F16 => (0x8000, 0x7C00),
            DType::BF16 => (0x8000, 0x7F80),
            DType::F32 => (0x8000_0000, 0x7F80_0000),
            _ => (0x8000_0000_0000_0000, 0x7FF0_0000_0000_0000),
        };
        proof {
            assert(h == sign_weight(d) && inf == infinity_bits(d));
        }
        let mag: u64 = if u >= h {
            u - h
        } else {
            u
        };
        let k: i128 = if u >= h {
            -(mag as i128)
        } else {
            mag as i128
        };
        (k, mag > inf)
    } else {
        (u as i128, false)
    }
}

/// The position, in C order, of the least (greatest, when `max`) element of
/// `buf`, floats read least significant byte first when `little`; fails as
/// [`extreme_outcome`] describes.
fn extreme_position(buf: &Buffer, little: bool, max: bool) -> (r: MohuResult<usize>)
    ensures
        extreme_outcome(buf@, little, max, r),
{
    let d = buf.dtype();
    if d == DType::C64 || d == DType::C128 {
        let op = if max {
            "argmax_flat"
        } else {
            "argmin_flat"
        };
        proof {
            reveal_strlit("argmax_flat");
            reveal_strlit("argmin_flat");
        }
        return Err(MohuError::UnsupportedDType { op, dtype: d.to_string() });
    }
    if buf.is_empty() {
        return Ok(0);
    }
    let g = match buf.to_bytes() {
        Ok(v) => v,
        Err(e) => return Err(e),
    };
    let isz = buf.itemsize();
    let glen = g.len();
    let n = glen / isz;
    proof {
        reveal(gathered);
        crate::strides::lemma_shape_product_nonneg(buf@.layout.shape);
        assert(glen == shape_product(buf@.layout.shape) * isz);
        vstd::arithmetic::div_mod::lemma_div_by_multiple(shape_product(buf@.layout.shape), isz as int);
        assert(n == shape_product(buf@.layout.shape));
    }
    if n == 0 {
        return Ok(0);
    }
    let ghost gs = g@;
    proof {
        assert(isz <= glen) by (nonlinear_arith)
            requires
                n >= 1,
                glen == n * isz,
        ;
    }
    let mut best: usize = 0;
    let mut best_key = element_order(d, g.as_slice(), 0, little);
    proof {
        assert(0 * (isz as int) == 0);
        assert(order_at(gs, d, isz as nat, 0, little) == elem_order(d, gs.subrange(0, isz as int), little));
    }
    let mut i: usize = 1;
    while i < n
        invariant
            1 <= i <= n,
            glen == g@.len(),
            gs == g@,
            glen == n * isz,
            isz == spec_itemsize(d),
            1 <= isz <= 16,
            d != DType::C64 && d != DType::C128,
            best < i,
            best == extreme_index(gs, d, isz as nat, i as nat, little, max),
            (best_key.0 as int, best_key.1) == order_at(gs, d, isz as nat, best as int, little),
        decreases n - i,
    {
        proof {
            assert(i * isz + isz <= n * isz) by (nonlinear_arith)
                requires
                    i < n,
            ;
        }
        let k = element_order(d, g.as_slice(), i * isz, little);
        let keep = !best_key.1 && !k.1 && (if max {
            best_key.0 >= k.0
        } else {
            best_key.0 <= k.0
        });
        let take = !keep;
        if take {
            best = i;
            best_key = k;
        }
        i = i + 1;
    }
    Ok(best)
}

/// The position, in C order, of the least element of `buf` (the first of
/// equal ones), floats read least significant byte first when `little`;
/// fails as [`extreme_outcome`] describes.
pub fn argmin_flat_with_byte_order(buf: &Buffer, little: bool) -> (r: MohuResult<usize>)
    ensures
        extreme_outcome(buf@, little, false, r),
{
    extreme_position(buf, little, false)
}

/// The position, in C order, of the greatest element of `buf` (the first of
/// equal ones), floats read least significant byte
/// first when `little`; fails as [`extreme_outcome`] describes.
pub fn argmax_flat_with_byte_order(buf: &Buffer, little: bool) -> (r: MohuResult<usize>)
    ensures
        extreme_outcome(buf@, little, true, r),
{
    extreme_position(buf, little, true)
}

/// The position, in C order, of the least element of `buf`, floats read in
/// the host's byte order; fails as [`extreme_outcome`] describes.
pub fn argmin_flat(buf: &Buffer) -> (r: MohuResult<usize>)
    ensures
        extreme_outcome(buf@, true, false, r) || extreme_outcome(buf@, false, false, r),
{
    let little = crate::compat::ByteOrder::host_is_little_endian();
    extreme_position(buf, little, false)
}

/// The position, in C order, of the greatest element of `buf`, floats read
/// in the host's byte order; fails as [`extreme_outcome`] describes.
pub fn argmax_flat(buf: &Buffer) -> (r: MohuResult<usize>)
    ensures
        extreme_outcome(buf@, true, true, r) || extreme_outcome(buf@, false, true, r),
{
    let little = crate::compat::ByteOrder::host_is_little_endian();
    extreme_position(buf, little, true)
}


/// When no element is NaN, [`extreme_index`] finds a least element (a
/// greatest one, when `max`) among the first `n`: no element compares below
/// (above) it, and every element before it compares strictly above (below)
/// it, so it is the first such element.
pub proof fn lemma_extreme_index(g: Seq<u8>, d: DType, isz: nat, n: nat, little: bool, max: bool)
    requires
        n >= 1,
        forall|i: int| 0 <= i < n ==> !(#[trigger] order_at(g, d, isz, i, little)).1,
    ensures
        ({
            let j = extreme_index(g, d, isz, n, little, max) as int;
            let kj = order_at(g, d, isz, j, little).0;
            &&& 0 <= j < n
            &&& forall|i: int| 0 <= i < n ==> (if max {
                (#[trigger] order_at(g, d, isz, i, little)).0 <= kj
            } else {
                kj <= order_at(g, d, isz, i, little).0
            })
            &&& forall|i: int| 0 <= i < j ==> (if max {
                (#[trigger] order_at(g, d, isz, i, little)).0 < kj
            } else {
                kj < order_at(g, d, isz, i, little).0
            })
        }),
    decreases n,
{
    if n > 1 {
        lemma_extreme_index(g, d, isz, (n - 1) as nat, little, max);
        let j = extreme_index(g, d, isz, (n - 1) as nat, little, max) as int;
        assert(!order_at(g, d, isz, j, little).1);
        assert(!order_at(g, d, isz, n - 1, little).1);
    }
}


// ─── Selection by a mask ─────────────────────────────────────────────────────

/// Element `k` of `a` where byte `k` of the mask `m` is not zero, else
/// element `k` of `b`; `a` and `b` hold elements of `isz` bytes in C order.
pub open spec fn selected(m: Seq<u8>, a: Seq<u8>, b: Seq<u8>, isz: nat) -> Seq<u8> {
    Seq::new(m.len() * isz, |i: int| if m[i / (isz as int)] != 0 { a[i] } else { b[i] })
}

/// An operand of [`where_select_dtype`] is refused: its dtype is not `tag`,
/// its shape is not `ms` (the mask's), or it is not C-contiguous.
pub open spec fn operand_refused(tag: DType, ms: Seq<usize>, x: BufferView) -> bool {
    x.dtype != tag || x.layout.shape != ms || !c_contiguous(x.layout)
}

/// The error for a refused operand: `DTypeMismatch`, `ShapeMismatch` or
/// `NonContiguous`, in that order.
pub open spec fn operand_refusal(tag: DType, ms: Seq<usize>, x: BufferView, r: MohuResult<()>) -> bool {
    if x.dtype != tag {
        r matches Err(MohuError::DTypeMismatch { expected, got }) && expected@ == spec_numpy_str(tag) && got@
            == spec_numpy_str(x.dtype)
    } else if x.layout.shape != ms {
        r matches Err(MohuError::ShapeMismatch { expected, got }) && expected@ == ms && got@ == x.layout.shape
    } else {
        r == Err::<(), MohuError>(MohuError::NonContiguous)
    }
}

/// The outcome of selecting, element by element, from `a` where the `U8`
/// `mask` is not zero and from `b` elsewhere, into `before`. The refusals
/// come in this order: `DTypeMismatch` for a mask that is not `U8`; the
/// refusal of `a`, then of `b` (see [`operand_refused`]); `ReadOnly`;
/// `ShapeMismatch` and `DTypeMismatch` for a destination of another shape or
/// dtype; `NonContiguous` for a mask or destination that is not C-contiguous;
/// then a failure to read the mask, `a` or `b`. Else the selection is written
/// over the destination in C order ([`selected`]). A failure leaves the
/// destination unchanged.
pub open spec fn select_outcome(
    tag: DType,
    mask: BufferView,
    a: BufferView,
    b: BufferView,
    before: BufferView,
    after: BufferView,
    r: MohuResult<()>,
) -> bool {
    let ms = mask.layout.shape;
    if mask.dtype != DType::U8 {
        &&& r matches Err(MohuError::DTypeMismatch { expected, got }) && expected@ == "U8"@ && got@
            == spec_numpy_str(mask.dtype)
        &&& after == before
    } else if operand_refused(tag, ms, a) {
        operand_refusal(tag, ms, a, r) && after == before
    } else if operand_refused(tag, ms, b) {
        operand_refusal(tag, ms, b, r) && after == before
    } else if before.flags & 1u8 != 1u8 {
        r == Err::<(), MohuError>(MohuError::ReadOnly) && after == before
    } else if before.layout.shape != ms {
        &&& r matches Err(MohuError::ShapeMismatch { expected, got }) && expected@ == ms && got@
            == before.layout.shape
        &&& after == before
    } else if before.dtype != tag {
        &&& r matches Err(MohuError::DTypeMismatch { expected, got }) && expected@ == spec_numpy_str(tag) && got@
            == spec_numpy_str(before.dtype)
        &&& after == before
    } else if !c_contiguous(mask.layout) || !c_contiguous(before.layout) {
        r == Err::<(), MohuError>(MohuError::NonContiguous) && after == before
    } else if !readable(mask) {
        read_failure(mask, r) && after == before
    } else if !readable(a) {
        read_failure(a, r) && after == before
    } else if !readable(b) {
        read_failure(b, r) && after == before
    } else {
        write_outcome(
            before,
            after,
            selected(gathered(mask.data, mask.layout), gathered(a.data, a.layout), gathered(b.data, b.layout), spec_itemsize(tag)),
            r,
        )
    }
}

/// Refuses an operand of [`where_select_dtype`] as [`operand_refusal`]
/// describes.
fn check_operand(tag: DType, ms: &[usize], x: &Buffer) -> (r: MohuResult<()>)
    ensures
        operand_refused(tag, ms@, x@) ==> operand_refusal(tag, ms@, x@, r),
        !operand_refused(tag, ms@, x@) ==> r is Ok,
{
    if tag != x.dtype() {
        return Err(MohuError::DTypeMismatch { expected: tag.to_string(), got: x.dtype().to_string() });
    }
    if !usize_slices_equal(x.shape(), ms) {
        return Err(MohuError::ShapeMismatch { expected: slice_to_vec(ms), got: slice_to_vec(x.shape()) });
    }
    if !x.is_c_contiguous() {
        return Err(MohuError::NonContiguous);
    }
    Ok(())
}

/// Bytes read from the C-order elements of a buffer, mapped back to the
/// outcome of a whole operation.
fn read_all(x: &Buffer) -> (r: MohuResult<Vec<u8>>)
    ensures
        readable(x@) ==> (r matches Ok(v) && v@ == gathered(x@.data, x@.layout)),
        !readable(x@) ==> (r matches Err(e) && read_failure(x@, Err(e))),
{
    match x.to_bytes() {
        Ok(v) => Ok(v),
        Err(e) => Err(e),
    }
}

/// Writes element `k` of `a` where byte `k` of `mask` is not zero, else
/// element `k` of `b`, over element `k` of `dst`, all of dtype `tag` but the
/// `U8` mask; fails as [`select_outcome`] describes.
pub fn where_select_dtype(tag: DType, mask: &Buffer, a: &Buffer, b: &Buffer, dst: &mut Buffer) -> (r: MohuResult<()>)
    ensures
        select_outcome(tag, mask@, a@, b@, old(dst)@, final(dst)@, r),
{
    if mask.dtype() != DType::U8 {
        return Err(MohuError::DTypeMismatch { expected: string_of("U8"), got: mask.dtype().to_string() });
    }
    check_operand(tag, mask.shape(), a)?;
    check_operand(tag, mask.shape(), b)?;
    if !dst.is_writeable() {
        return Err(MohuError::ReadOnly);
    }
    if !usize_slices_equal(dst.shape(), mask.shape()) {
        return Err(MohuError::ShapeMismatch { expected: slice_to_vec(mask.shape()), got: slice_to_vec(dst.shape()) });
    }
    if dst.dtype() != tag {
        return Err(MohuError::DTypeMismatch { expected: tag.to_string(), got: dst.dtype().to_string() });
    }
    if !mask.is_c_contiguous() || !dst.is_c_contiguous() {
        return Err(MohuError::NonContiguous);
    }
    let _dst_isz = dst.itemsize();
    let _mask_isz = mask.itemsize();
    let _a_isz = a.itemsize();
    let _b_isz = b.itemsize();
    let m = read_all(mask)?;
    let av = read_all(a)?;
    let bv = read_all(b)?;
    let isz = tag.itemsize();
    let n = m.len();
    proof {
        reveal(gathered);
        crate::strides::lemma_shape_product_nonneg(mask@.layout.shape);
        assert(mask@.layout.itemsize == 1);
        assert(m@.len() == (shape_product(mask@.layout.shape) * 1) as nat);
        assert(m@.len() == shape_product(mask@.layout.shape));
        assert(av@.len() == n * isz && bv@.len() == n * isz);
    }
    let total = av.len();
    let mut out: Vec<u8> = Vec::new();
    let mut k: usize = 0;
    while k < n
        invariant
            k <= n,
            n == m@.len(),
            1 <= isz <= 16,
            av@.len() == n * isz,
            bv@.len() == n * isz,
            total == n * isz,
            out@.len() == k * isz,
            forall|i: int|
                0 <= i < k * isz ==> #[trigger] out@[i] == (if m@[i / (isz as int)] != 0 {
                    av@[i]
                } else {
                    bv@[i]
                }),
        decreases n - k,
    {
        let ghost before = out@;
        proof {
            assert(k * isz + isz <= n * isz) by (nonlinear_arith)
                requires
                    k < n,
            ;
        }
        if m[k] != 0 {
            push_bytes(&mut out, av.as_slice(), k * isz, isz);
        } else {
            push_bytes(&mut out, bv.as_slice(), k * isz, isz);
        }
        proof {
            assert((k + 1) * isz == k * isz + isz) by (nonlinear_arith);
            assert forall|i: int| 0 <= i < (k + 1) * isz implies #[trigger] out@[i] == (if m@[i / (isz as int)]
                != 0 {
                av@[i]
            } else {
                bv@[i]
            }) by {
                if i < k * isz {
                    assert(out@[i] == before[i]);
                } else {
                    lemma_div_mod_step(i, k as int, isz as int);
                }
            }
        }
        k = k + 1;
    }
    proof {
        let s = selected(m@, av@, bv@, isz as nat);
        assert(out@ =~= s);
        assert(shape_product(dst@.layout.shape) == n);
    }
    dst.write_elements(out.as_slice())
}

/// Writes element `k` of `a` where byte `k` of `mask` is not zero, else
/// element `k` of `b`, over element `k` of `dst`, for elements of type `T`;
/// fails as [`select_outcome`] describes.
pub fn where_select<T: RealScalar>(mask: &Buffer, a: &Buffer, b: &Buffer, dst: &mut Buffer) -> (r: MohuResult<()>)
    ensures
        select_outcome(T::tag(), mask@, a@, b@, old(dst)@, final(dst)@, r),
{
    where_select_dtype(T::dtype(), mask, a, b, dst)
}


// ─── Clipping and arithmetic sequences ───────────────────────────────────────

/// The low `n` bytes of `w`, least significant first when `little`, else
/// most significant first.
pub open spec fn pattern_bytes(w: u64, n: nat, little: bool) -> Seq<u8> {
    Seq::new(n, |j: int| if little { le_byte(w, j) } else { le_byte(w, n - 1 - j) })
}

/// The 64-bit two's-complement pattern of `x`.
pub open spec fn pattern64(x: int) -> u64 {
    bit_pattern(x, 0x1_0000_0000_0000_0000) as u64
}

/// The low `n` bytes of `w` in the given byte order (see [`pattern_bytes`]).
pub(crate) fn bytes_of_pattern(w: u64, n: usize, little: bool) -> (r: Vec<u8>)
    requires
        n <= 8,
    ensures
        r@ == pattern_bytes(w, n as nat, little),
{
    let mut out: Vec<u8> = Vec::new();
    let mut j: usize = 0;
    while j < n
        invariant
            j <= n <= 8,
            out@ =~= pattern_bytes(w, n as nat, little).take(j as int),
        decreases n - j,
    {
        let e: usize = if little {
            j
        } else {
            n - 1 - j
        };
        let s: u64 = 8 * (e as u64);
        let byte = ((w >> s) & 0xffu64) as u8;
        out.push(byte);
        j = j + 1;
    }
    out
}

/// The C-order element bytes `g` (elements of `isz` bytes and dtype `d`,
/// least significant byte first when `little`) with each element whose
/// value (see [`elem_order`]) lies below `lo` replaced by the bytes `lob`,
/// and each one above `hi` by `hib`; when `lo > hi`, an element below `lo`
/// takes `lob`.
pub open spec fn clipped(
    g: Seq<u8>,
    d: DType,
    isz: nat,
    little: bool,
    lo: int,
    hi: int,
    lob: Seq<u8>,
    hib: Seq<u8>,
) -> Seq<u8> {
    Seq::new(
        g.len(),
        |i: int|
            {
                let v = order_at(g, d, isz, i / (isz as int), little).0;
                if v < lo {
                    lob[i % (isz as int)]
                } else if v > hi {
                    hib[i % (isz as int)]
                } else {
                    g[i]
                }
            },
    )
}

/// An element-by-element operation from `src` into `before`, elements of
/// dtype `tag`, is refused: either buffer is of another dtype, the element
/// counts differ, either is not C-contiguous, `before` is read-only, or the
/// elements of `src` cannot be read.
pub open spec fn elementwise_refused(tag: DType, src: BufferView, before: BufferView) -> bool {
    ||| src.dtype != tag || before.dtype != tag
    ||| shape_product(src.layout.shape) != shape_product(before.layout.shape)
    ||| !c_contiguous(src.layout) || !c_contiguous(before.layout)
    ||| before.flags & 1u8 != 1u8
    ||| !readable(src)
}

/// The error of a refused element-by-element operation: `DTypeMismatch`
/// (naming the dtype of `src`), `ShapeMismatch`, `NonContiguous`,
/// `ReadOnly`, then a failure to read `src`, the first that applies.
pub open spec fn elementwise_refusal(tag: DType, src: BufferView, before: BufferView, r: MohuResult<()>) -> bool {
    if src.dtype != tag || before.dtype != tag {
        r matches Err(MohuError::DTypeMismatch { expected, got }) && expected@ == spec_numpy_str(tag) && got@
            == spec_numpy_str(src.dtype)
    } else if shape_product(src.layout.shape) != shape_product(before.layout.shape) {
        r matches Err(MohuError::ShapeMismatch { expected, got }) && expected@ == src.layout.shape && got@
            == before.layout.shape
    } else if !c_contiguous(src.layout) || !c_contiguous(before.layout) {
        r == Err::<(), MohuError>(MohuError::NonContiguous)
    } else if before.flags & 1u8 != 1u8 {
        r == Err::<(), MohuError>(MohuError::ReadOnly)
    } else {
        read_failure(src, r)
    }
}

/// Checks an element-by-element operation from `src` into `dst` and reads
/// the elements of `src`; fails as [`elementwise_refusal`] describes.
fn elementwise_input(tag: DType, src: &Buffer, dst: &Buffer) -> (r: MohuResult<Vec<u8>>)
    requires
        prefixes_fit(src@.layout.shape, usize::MAX as int),
        prefixes_fit(dst@.layout.shape, usize::MAX as int),
    ensures
        elementwise_refused(tag, src@, dst@) ==> (r matches Err(e) && elementwise_refusal(tag, src@, dst@, Err(e))),
        !elementwise_refused(tag, src@, dst@) ==> (r matches Ok(v) && v@ == gathered(src@.data, src@.layout)),
{
    if tag != src.dtype() || tag != dst.dtype() {
        return Err(MohuError::DTypeMismatch { expected: tag.to_string(), got: src.dtype().to_string() });
    }
    if src.len() != dst.len() {
        return Err(MohuError::ShapeMismatch { expected: slice_to_vec(src.shape()), got: slice_to_vec(dst.shape()) });
    }
    if !src.is_c_contiguous() || !dst.is_c_contiguous() {
        return Err(MohuError::NonContiguous);
    }
    if !dst.is_writeable() {
        return Err(MohuError::ReadOnly);
    }
    read_all(src)
}

/// The outcome of clipping the elements of `src` to `[lo, hi]` into
/// `before`, elements of dtype `tag` read and written least significant
/// byte first when `little`: a refusal as [`elementwise_refusal`] describes,
/// leaving `before` unchanged; else the [`clipped`] elements of `src` are
/// written over those of `before` in C order.
pub open spec fn clip_outcome(
    tag: DType,
    lo: int,
    hi: int,
    src: BufferView,
    before: BufferView,
    after: BufferView,
    little: bool,
    r: MohuResult<()>,
) -> bool {
    let isz = spec_itemsize(tag);
    if elementwise_refused(tag, src, before) {
        elementwise_refusal(tag, src, before, r) && after == before
    } else {
        write_outcome(
            before,
            after,
            clipped(
                gathered(src.data, src.layout),
                tag,
                isz,
                little,
                lo,
                hi,
                pattern_bytes(pattern64(lo), isz, little),
                pattern_bytes(pattern64(hi), isz, little),
            ),
            r,
        )
    }
}

/// Clips every element of `src` to `[lo, hi]`, writing into `dst`, elements
/// read and written least significant byte first when `little`; fails as
/// [`clip_outcome`] describes.
pub fn clip_with_byte_order<T: IntScalar>(src: &Buffer, dst: &mut Buffer, lo: T, hi: T, little: bool) -> (r:
    MohuResult<()>)
    requires
        prefixes_fit(src@.layout.shape, usize::MAX as int),
        prefixes_fit(old(dst)@.layout.shape, usize::MAX as int),
    ensures
        clip_outcome(T::tag(), lo.value(), hi.value(), src@, old(dst)@, final(dst)@, little, r),
{
    let tag = T::dtype();
    let _src_isz = src.itemsize();
    let _dst_isz = dst.itemsize();
    let g = elementwise_input(tag, src, dst)?;
    let isz = tag.itemsize();
    proof {
        reveal(gathered);
        crate::strides::lemma_shape_product_nonneg(src@.layout.shape);
    }
    let _bits = T::bits();
    let lob = bytes_of_pattern(lo.to_u64_bits(), isz, little);
    let hib = bytes_of_pattern(hi.to_u64_bits(), isz, little);
    let lo_v = lo.to_i128();
    let hi_v = hi.to_i128();
    let glen = g.len();
    let n = glen / isz;
    proof {
        vstd::arithmetic::div_mod::lemma_div_by_multiple(shape_product(src@.layout.shape), isz as int);
    }
    let mut out: Vec<u8> = Vec::new();
    let mut k: usize = 0;
    while k < n
        invariant
            k <= n,
            glen == g@.len(),
            glen == n * isz,
            1 <= isz <= 8,
            isz == spec_itemsize(tag),
            lob@ == pattern_bytes(pattern64(lo_v as int), isz as nat, little),
            hib@ == pattern_bytes(pattern64(hi_v as int), isz as nat, little),
            out@.len() == k * isz,
            forall|i: int|
                0 <= i < k * isz ==> #[trigger] out@[i] == clipped(
                    g@,
                    tag,
                    isz as nat,
                    little,
                    lo_v as int,
                    hi_v as int,
                    lob@,
                    hib@,
                )[i],
        decreases n - k,
    {
        let ghost before = out@;
        proof {
            assert(k * isz + isz <= n * isz) by (nonlinear_arith)
                requires
                    k < n,
            ;
            assert((k + 1) * isz == k * isz + isz) by (nonlinear_arith);
        }
        let key = element_order(tag, g.as_slice(), k * isz, little);
        if key.0 < lo_v {
            push_bytes(&mut out, lob.as_slice(), 0, isz);
        } else if key.0 > hi_v {
            push_bytes(&mut out, hib.as_slice(), 0, isz);
        } else {
            push_bytes(&mut out, g.as_slice(), k * isz, isz);
        }
        proof {
            assert forall|i: int| 0 <= i < (k + 1) * isz implies #[trigger] out@[i] == clipped(
                g@,
                tag,
                isz as nat,
                little,
                lo_v as int,
                hi_v as int,
                lob@,
                hib@,
            )[i] by {
                if i < k * isz {
                    assert(out@[i] == before[i]);
                } else {
                    lemma_div_mod_step(i, k as int, isz as int);
                }
            }
        }
        k = k + 1;
    }
    proof {
        assert(out@ =~= clipped(g@, tag, isz as nat, little, lo_v as int, hi_v as int, lob@, hib@));
    }
    dst.write_elements(out.as_slice())
}

/// Clips every element of `src` to `[lo, hi]`, writing into `dst`, elements
/// in the host's byte order; fails as [`clip_outcome`] describes.
pub fn clip<T: IntScalar>(src: &Buffer, dst: &mut Buffer, lo: T, hi: T) -> (r: MohuResult<()>)
    requires
        prefixes_fit(src@.layout.shape, usize::MAX as int),
        prefixes_fit(old(dst)@.layout.shape, usize::MAX as int),
    ensures
        clip_outcome(T::tag(), lo.value(), hi.value(), src@, old(dst)@, final(dst)@, true, r) || clip_outcome(
            T::tag(),
            lo.value(),
            hi.value(),
            src@,
            old(dst)@,
            final(dst)@,
            false,
            r,
        ),
{
    let little = crate::compat::ByteOrder::host_is_little_endian();
    clip_with_byte_order(src, dst, lo, hi, little)
}


/// Term `k` of the arithmetic sequence from `start` by `step`.
pub open spec fn term(start: int, step: int, k: int) -> int {
    start + k * step
}

/// The first `n` terms of the sequence from `start` by `step` all lie
/// within `[lo, hi]`.
pub open spec fn sequence_fits(start: int, step: int, n: nat, lo: int, hi: int) -> bool {
    forall|k: int| 0 <= k < n ==> lo <= #[trigger] term(start, step, k) <= hi
}

/// The bytes of the first `n` terms of the sequence from `start` by
/// `step`, each the low `isz` bytes of its 64-bit two's-complement pattern,
/// least significant first when `little`.
pub open spec fn sequence_bytes(start: int, step: int, n: nat, isz: nat, little: bool) -> Seq<u8> {
    Seq::new(
        n * isz,
        |i: int| pattern_bytes(pattern64(term(start, step, i / (isz as int))), isz, little)[i % (isz as int)],
    )
}

/// The outcome of filling `before` with the sequence from `start` by `step`
/// in C order, elements of dtype `tag` written least significant byte first
/// when `little`: `DTypeMismatch` when the buffer is not of dtype `tag`,
/// `ReadOnly`, else the [`sequence_bytes`] are written over its elements. A
/// failure leaves the buffer unchanged.
pub open spec fn sequence_outcome(
    tag: DType,
    start: int,
    step: int,
    before: BufferView,
    after: BufferView,
    little: bool,
    r: MohuResult<()>,
) -> bool {
    if before.dtype != tag {
        &&& r matches Err(MohuError::DTypeMismatch { expected, got }) && expected@ == spec_numpy_str(tag) && got@
            == spec_numpy_str(before.dtype)
        &&& after == before
    } else if before.flags & 1u8 != 1u8 {
        r == Err::<(), MohuError>(MohuError::ReadOnly) && after == before
    } else {
        write_outcome(
            before,
            after,
            sequence_bytes(start, step, shape_product(before.layout.shape) as nat, spec_itemsize(tag), little),
            r,
        )
    }
}

/// Fills `buf` with `start, start + step, start + 2 * step, …` in C order,
/// elements written least significant byte first when `little`; fails as
/// [`sequence_outcome`] describes. Every term must fit the element type.
pub fn fill_sequential_with_byte_order<T: IntScalar>(buf: &mut Buffer, start: T, step: T, little: bool) -> (r:
    MohuResult<()>)
    requires
        prefixes_fit(old(buf)@.layout.shape, usize::MAX as int),
        old(buf)@.dtype == T::tag() && old(buf)@.flags & 1u8 == 1u8 ==> sequence_fits(
            start.value(),
            step.value(),
            shape_product(old(buf)@.layout.shape) as nat,
            T::lowest(),
            T::highest(),
        ),
    ensures
        sequence_outcome(T::tag(), start.value(), step.value(), old(buf)@, final(buf)@, little, r),
{
    let tag = T::dtype();
    if tag != buf.dtype() {
        return Err(MohuError::DTypeMismatch { expected: tag.to_string(), got: buf.dtype().to_string() });
    }
    if !buf.is_writeable() {
        return Err(MohuError::ReadOnly);
    }
    let _isz = buf.itemsize();
    let _bits = T::bits();
    proof {
        T::lemma_limits();
        crate::strides::lemma_shape_product_nonneg(buf@.layout.shape);
    }
    let isz = tag.itemsize();
    let n = buf.len();
    let ghost lo = T::lowest();
    let ghost hi = T::highest();
    let ghost s0 = start.value();
    let ghost d0 = step.value();
    let step_v = step.to_i128();
    let mut acc = start.to_i128();
    let mut out: Vec<u8> = Vec::new();
    let mut k: usize = 0;
    while k < n
        invariant
            k <= n,
            n == shape_product(buf@.layout.shape),
            1 <= isz <= 8,
            isz == spec_itemsize(tag),
            i64::MIN <= lo <= 0 <= hi <= u64::MAX,
            sequence_fits(s0, d0, n as nat, lo, hi),
            step_v == d0,
            k < n ==> acc == term(s0, d0, k as int),
            out@.len() == k * isz,
            forall|i: int|
                0 <= i < k * isz ==> #[trigger] out@[i] == sequence_bytes(s0, d0, n as nat, isz as nat, little)[i],
        decreases n - k,
    {
        let ghost before = out@;
        proof {
            assert(lo <= term(s0, d0, k as int) <= hi);
            assert((k + 1) * isz == k * isz + isz) by (nonlinear_arith);
            assert(k * isz + isz <= n * isz) by (nonlinear_arith)
                requires
                    k < n,
            ;
        }
        let w: u64 = if acc < 0 {
            (acc + 0x1_0000_0000_0000_0000i128) as u64
        } else {
            acc as u64
        };
        let piece = bytes_of_pattern(w, isz, little);
        push_bytes(&mut out, piece.as_slice(), 0, isz);
        proof {
            assert(w == pattern64(term(s0, d0, k as int)));
            assert forall|i: int| 0 <= i < (k + 1) * isz implies #[trigger] out@[i] == sequence_bytes(
                s0,
                d0,
                n as nat,
                isz as nat,
                little,
            )[i] by {
                if i < k * isz {
                    assert(out@[i] == before[i]);
                } else {
                    lemma_div_mod_step(i, k as int, isz as int);
                }
            }
            assert(term(s0, d0, k as int) + d0 == term(s0, d0, k + 1)) by (nonlinear_arith);
        }
        if k + 1 < n {
            proof {
                assert(lo <= term(s0, d0, k + 1) <= hi);
            }
            acc = acc + step_v;
        }
        k = k + 1;
    }
    proof {
        assert(out@ =~= sequence_bytes(s0, d0, n as nat, isz as nat, little));
    }
    buf.write_elements(out.as_slice())
}

/// Fills `buf` with `start, start + step, start + 2 * step, …` in C order,
/// elements in the host's byte order; fails as [`sequence_outcome`]
/// describes. Every term must fit the element type.
pub fn fill_sequential<T: IntScalar>(buf: &mut Buffer, start: T, step: T) -> (r: MohuResult<()>)
    requires
        prefixes_fit(old(buf)@.layout.shape, usize::MAX as int),
        old(buf)@.dtype == T::tag() && old(buf)@.flags & 1u8 == 1u8 ==> sequence_fits(
            start.value(),
            step.value(),
            shape_product(old(buf)@.layout.shape) as nat,
            T::lowest(),
            T::highest(),
        ),
    ensures
        sequence_outcome(T::tag(), start.value(), step.value(), old(buf)@, final(buf)@, true, r)
            || sequence_outcome(T::tag(), start.value(), step.value(), old(buf)@, final(buf)@, false, r),
{
    let little = crate::compat::ByteOrder::host_is_little_endian();
    fill_sequential_with_byte_order(buf, start, step, little)
}


// ─── Inclusive scan ──────────────────────────────────────────────────────────

/// `x` is the element held in the bytes `b`, least significant byte first
/// when `little`: its two's-complement pattern is their unsigned value, cut
/// to the width of `T`.
pub open spec fn held<T: IntScalar>(x: T, b: Seq<u8>, little: bool) -> bool {
    let m = T::highest() - T::lowest() + 1;
    bit_pattern(x.value(), m) == uint_of_bytes(b, little) as int % m
}

/// `ins` are the elements held in the C-order element bytes `g`, `isz`
/// bytes each.
pub open spec fn elements_held<T: IntScalar>(g: Seq<u8>, isz: nat, little: bool, ins: Seq<T>) -> bool {
    &&& ins.len() * isz == g.len()
    &&& forall|k: int|
        0 <= k < ins.len() ==> held(#[trigger] ins[k], g.subrange(k * isz, k * isz + isz), little)
}

/// `outs` are the running results of folding `f` over `ins` from
/// `identity`: each is a result that `f` may give for the result before it
/// (`identity` for the first) and the input at its position.
pub open spec fn scan_of<T, F: Fn(T, T) -> T>(f: F, identity: T, ins: Seq<T>, outs: Seq<T>) -> bool {
    &&& outs.len() == ins.len()
    &&& forall|k: int|
        0 <= k < ins.len() ==> call_ensures(
            f,
            (
                if k == 0 {
                    identity
                } else {
                    outs[k - 1]
                },
                ins[k],
            ),
            #[trigger] outs[k],
        )
}

/// The bytes of the elements `xs`, each the low `isz` bytes of its 64-bit
/// two's-complement pattern, least significant first when `little`.
pub open spec fn encoded<T: IntScalar>(xs: Seq<T>, isz: nat, little: bool) -> Seq<u8> {
    Seq::new(
        xs.len() * isz,
        |i: int| pattern_bytes(pattern64(xs[i / (isz as int)].value()), isz, little)[i % (isz as int)],
    )
}

/// The outcome of an inclusive scan of `src` by `f` from `identity` into
/// `before`, elements of type `T` read and written least significant byte
/// first when `little`: a refusal as [`elementwise_refusal`] describes,
/// leaving `before` unchanged; else, for the elements `ins` of `src` and
/// some running results `outs` of `f` over them ([`scan_of`]), the
/// [`encoded`] `outs` are written over the elements of `before` in C order.
pub open spec fn scan_outcome<T: IntScalar, F: Fn(T, T) -> T>(
    f: F,
    identity: T,
    src: BufferView,
    before: BufferView,
    after: BufferView,
    little: bool,
    r: MohuResult<()>,
) -> bool {
    let isz = spec_itemsize(T::tag());
    if elementwise_refused(T::tag(), src, before) {
        elementwise_refusal(T::tag(), src, before, r) && after == before
    } else {
        exists|ins: Seq<T>, outs: Seq<T>|
            #![trigger elements_held(gathered(src.data, src.layout), isz, little, ins), scan_of(f, identity, ins, outs)]
            {
                &&& elements_held(gathered(src.data, src.layout), isz, little, ins)
                &&& scan_of(f, identity, ins, outs)
                &&& write_outcome(before, after, encoded(outs, isz, little), r)
            }
    }
}

/// Computes the inclusive scan of `src` by `f` from `identity` (for
/// addition, the running sums) into `dst`, elements read and written least
/// significant byte first when `little`; fails as [`scan_outcome`]
/// describes.
pub fn parallel_scan_with_byte_order<T: IntScalar, F: Fn(T, T) -> T>(
    src: &Buffer,
    dst: &mut Buffer,
    identity: T,
    f: F,
    little: bool,
) -> (r: MohuResult<()>)
    requires
        prefixes_fit(src@.layout.shape, usize::MAX as int),
        prefixes_fit(old(dst)@.layout.shape, usize::MAX as int),
        forall|a: T, b: T| call_requires(f, (a, b)),
    ensures
        scan_outcome(f, identity, src@, old(dst)@, final(dst)@, little, r),
{
    let tag = T::dtype();
    let _src_isz = src.itemsize();
    let _dst_isz = dst.itemsize();
    let g = elementwise_input(tag, src, dst)?;
    let _bits = T::bits();
    let isz = tag.itemsize();
    proof {
        reveal(gathered);
        crate::strides::lemma_shape_product_nonneg(src@.layout.shape);
    }
    let glen = g.len();
    let n = glen / isz;
    proof {
        vstd::arithmetic::div_mod::lemma_div_by_multiple(shape_product(src@.layout.shape), isz as int);
    }
    let ghost mut ins: Seq<T> = Seq::empty();
    let ghost mut outs: Seq<T> = Seq::empty();
    let mut acc = identity;
    let mut out: Vec<u8> = Vec::new();
    let mut k: usize = 0;
    while k < n
        invariant
            k <= n,
            glen == g@.len(),
            glen == n * isz,
            1 <= isz <= 8,
            isz == spec_itemsize(T::tag()),
            forall|a: T, b: T| call_requires(f, (a, b)),
            ins.len() == k,
            forall|j: int|
                0 <= j < k ==> held(#[trigger] ins[j], g@.subrange(j * isz, j * isz + isz), little),
            scan_of(f, identity, ins, outs),
            k == 0 ==> acc == identity,
            k > 0 ==> acc == outs[k - 1],
            out@ =~= encoded(outs, isz as nat, little),
        decreases n - k,
    {
        proof {
            assert(k * isz + isz <= n * isz) by (nonlinear_arith)
                requires
                    k < n,
            ;
            assert((k + 1) * isz == k * isz + isz) by (nonlinear_arith);
        }
        let u = read_uint(g.as_slice(), k * isz, isz, little);
        let x = T::from_pattern(u);
        let y = f(acc, x);
        let piece = bytes_of_pattern(y.to_u64_bits(), isz, little);
        let ghost before = out@;
        let ghost outs0 = outs;
        push_bytes(&mut out, piece.as_slice(), 0, isz);
        proof {
            ins = ins.push(x);
            outs = outs.push(y);
            assert forall|j: int| 0 <= j < k + 1 implies held(#[trigger] ins[j], g@.subrange(j * isz, j * isz + isz), little) by {
                if j < k {
                    assert(ins[j] == ins.drop_last()[j]);
                }
            }
            assert forall|j: int| 0 <= j < ins.len() implies call_ensures(
                f,
                (
                    if j == 0 {
                        identity
                    } else {
                        outs[j - 1]
                    },
                    ins[j],
                ),
                #[trigger] outs[j],
            ) by {
                if j < k {
                    assert(outs[j] == outs0[j]);
                    if j > 0 {
                        assert(outs[j - 1] == outs0[j - 1]);
                    }
                }
            }
            assert forall|i: int| 0 <= i < out@.len() implies out@[i] == encoded(outs, isz as nat, little)[i] by {
                if i < k * isz {
                    lemma_div_mod_step(i, (i / (isz as int)), isz as int);
                    vstd::arithmetic::div_mod::lemma_fundamental_div_mod(i, isz as int);
                    assert(i / (isz as int) < k) by (nonlinear_arith)
                        requires
                            0 <= i < k * isz,
                            isz >= 1,
                    ;
                    assert(out@[i] == before[i]);
                } else {
                    lemma_div_mod_step(i, k as int, isz as int);
                }
            }
        }
        acc = y;
        k = k + 1;
    }
    proof {
        assert(elements_held(g@, isz as nat, little, ins));
        assert(scan_of(f, identity, ins, outs));
    }
    let r = dst.write_elements(out.as_slice());
    proof {
        assert(write_outcome(old(dst)@, final(dst)@, encoded(outs, isz as nat, little), r));
    }
    r
}

/// Computes the inclusive scan of `src` by `f` from `identity` (for
/// addition, the running sums) into `dst`, elements in the host's byte
/// order; fails as [`scan_outcome`] describes.
pub fn parallel_scan<T: IntScalar, F: Fn(T, T) -> T>(src: &Buffer, dst: &mut Buffer, identity: T, f: F) -> (r:
    MohuResult<()>)
    requires
        prefixes_fit(src@.layout.shape, usize::MAX as int),
        prefixes_fit(old(dst)@.layout.shape, usize::MAX as int),
        forall|a: T, b: T| call_requires(f, (a, b)),
    ensures
        scan_outcome(f, identity, src@, old(dst)@, final(dst)@, true, r) || scan_outcome(
            f,
            identity,
            src@,
            old(dst)@,
            final(dst)@,
            false,
            r,
        ),
{
    let little = crate::compat::ByteOrder::host_is_little_endian();
    parallel_scan_with_byte_order(src, dst, identity, f, little)
}


// ─── Typed element maps ──────────────────────────────────────────────────────

/// The bytes of element `k` of the C-order element bytes `g`, `isz` bytes
/// each.
pub open spec fn element_at(g: Seq<u8>, isz: nat, k: int) -> Seq<u8> {
    g.subrange(k * isz, k * isz + isz)
}

/// `p` holds of every element of `T` held in an element of `b`, read least
/// significant byte first when `little`.
pub open spec fn all_held<T: IntScalar>(b: BufferView, little: bool, p: spec_fn(T) -> bool) -> bool {
    forall|k: int, x: T|
        0 <= k < shape_product(b.layout.shape) && #[trigger] held(
            x,
            element_at(gathered(b.data, b.layout), spec_itemsize(b.dtype), k),
            little,
        ) ==> p(x)
}

/// Decodes the `n` elements of `isz` bytes in `g`.
pub(crate) fn decode_all<T: IntScalar>(g: &[u8], n: usize, isz: usize, little: bool) -> (r: Vec<T>)
    requires
        1 <= isz <= 8,
        g@.len() == n * isz,
    ensures
        r@.len() == n,
        elements_held(g@, isz as nat, little, r@),
{
    let total = g.len();
    let mut out: Vec<T> = Vec::new();
    let mut k: usize = 0;
    while k < n
        invariant
            k <= n,
            g@.len() == n * isz,
            total == n * isz,
            1 <= isz <= 8,
            out@.len() == k,
            forall|j: int| 0 <= j < k ==> held(#[trigger] out@[j], g@.subrange(j * isz, j * isz + isz), little),
        decreases n - k,
    {
        proof {
            assert(k * isz + isz <= n * isz) by (nonlinear_arith)
                requires
                    k < n,
            ;
        }
        let u = read_uint(g, k * isz, isz, little);
        out.push(T::from_pattern(u));
        k = k + 1;
    }
    out
}

/// Encodes the elements `xs`, `isz` bytes each (see [`encoded`]).
pub(crate) fn encode_all<T: IntScalar>(xs: &[T], isz: usize, little: bool) -> (r: Vec<u8>)
    requires
        1 <= isz <= 8,
        xs@.len() * isz <= usize::MAX,
    ensures
        r@ == encoded(xs@, isz as nat, little),
{
    let n = xs.len();
    let mut out: Vec<u8> = Vec::new();
    let mut k: usize = 0;
    while k < n
        invariant
            k <= n,
            n == xs@.len(),
            n * isz <= usize::MAX,
            1 <= isz <= 8,
            out@.len() == k * isz,
            forall|i: int| 0 <= i < k * isz ==> #[trigger] out@[i] == encoded(xs@, isz as nat, little)[i],
        decreases n - k,
    {
        let ghost before = out@;
        proof {
            assert((k + 1) * isz == k * isz + isz) by (nonlinear_arith);
            assert(k * isz + isz <= n * isz) by (nonlinear_arith)
                requires
                    k < n,
            ;
        }
        let piece = bytes_of_pattern(xs[k].to_u64_bits(), isz, little);
        push_bytes(&mut out, piece.as_slice(), 0, isz);
        proof {
            assert forall|i: int| 0 <= i < (k + 1) * isz implies #[trigger] out@[i] == encoded(
                xs@,
                isz as nat,
                little,
            )[i] by {
                if i < k * isz {
                    assert(out@[i] == before[i]);
                } else {
                    lemma_div_mod_step(i, k as int, isz as int);
                }
            }
        }
        k = k + 1;
    }
    proof {
        assert(out@ =~= encoded(xs@, isz as nat, little));
    }
    out
}

/// `outs` are results that `f` may give for `ins`, position by position.
pub open spec fn mapped_by<S, D, F: Fn(S) -> D>(f: F, ins: Seq<S>, outs: Seq<D>) -> bool {
    &&& outs.len() == ins.len()
    &&& forall|k: int| 0 <= k < ins.len() ==> call_ensures(f, (ins[k],), #[trigger] outs[k])
}

/// Mapping `src` into `before` is refused: either is not C-contiguous, the
/// element counts differ, `before` is read-only, or the elements of `src`
/// cannot be read.
pub open spec fn map_refused(src: BufferView, before: BufferView) -> bool {
    ||| !c_contiguous(src.layout) || !c_contiguous(before.layout)
    ||| shape_product(src.layout.shape) != shape_product(before.layout.shape)
    ||| before.flags & 1u8 != 1u8
    ||| !readable(src)
}

/// The error of a refused map: `NonContiguous`, `ShapeMismatch`,
/// `ReadOnly`, then a failure to read `src`, the first that applies.
pub open spec fn map_refusal(src: BufferView, before: BufferView, r: MohuResult<()>) -> bool {
    if !c_contiguous(src.layout) || !c_contiguous(before.layout) {
        r == Err::<(), MohuError>(MohuError::NonContiguous)
    } else if shape_product(src.layout.shape) != shape_product(before.layout.shape) {
        r matches Err(MohuError::ShapeMismatch { expected, got }) && expected@ == src.layout.shape && got@
            == before.layout.shape
    } else if before.flags & 1u8 != 1u8 {
        r == Err::<(), MohuError>(MohuError::ReadOnly)
    } else {
        read_failure(src, r)
    }
}

/// The outcome of mapping the elements of `src` (of type `S`) by `f` into
/// `before` (of type `D`), read and written least significant byte first
/// when `little`: a refusal as [`map_refusal`] describes, leaving `before`
/// unchanged; else, for the elements `ins` of `src` and results `outs` that
/// `f` gives for them, the [`encoded`] `outs` are written over the elements
/// of `before` in C order.
pub open spec fn map_outcome<S: IntScalar, D: IntScalar, F: Fn(S) -> D>(
    f: F,
    src: BufferView,
    before: BufferView,
    after: BufferView,
    little: bool,
    r: MohuResult<()>,
) -> bool {
    if map_refused(src, before) {
        map_refusal(src, before, r) && after == before
    } else if spec_contiguous_nbytes(before.layout.shape, before.layout.itemsize) is Err {
        &&& r == Err::<(), MohuError>(spec_contiguous_nbytes(before.layout.shape, before.layout.itemsize)->Err_0)
        &&& after == before
    } else {
        exists|ins: Seq<S>, outs: Seq<D>|
            #![trigger elements_held(gathered(src.data, src.layout), spec_itemsize(S::tag()), little, ins), mapped_by(f, ins, outs)]
            {
                &&& elements_held(gathered(src.data, src.layout), spec_itemsize(S::tag()), little, ins)
                &&& mapped_by(f, ins, outs)
                &&& write_outcome(before, after, encoded(outs, spec_itemsize(D::tag()), little), r)
            }
    }
}

/// Checks a map from `src` into `dst` and reads the elements of `src`;
/// fails as [`map_refusal`] describes.
pub fn map_input(src: &Buffer, dst: &Buffer) -> (r: MohuResult<Vec<u8>>)
    requires
        prefixes_fit(src@.layout.shape, usize::MAX as int),
        prefixes_fit(dst@.layout.shape, usize::MAX as int),
    ensures
        map_refused(src@, dst@) ==> (r matches Err(e) && map_refusal(src@, dst@, Err(e))),
        !map_refused(src@, dst@) ==> (r matches Ok(v) && v@ == gathered(src@.data, src@.layout)),
{
    if !src.is_c_contiguous() || !dst.is_c_contiguous() {
        return Err(MohuError::NonContiguous);
    }
    if src.len() != dst.len() {
        return Err(MohuError::ShapeMismatch { expected: slice_to_vec(src.shape()), got: slice_to_vec(dst.shape()) });
    }
    if !dst.is_writeable() {
        return Err(MohuError::ReadOnly);
    }
    read_all(src)
}

/// Maps every element of `src` (of type `S`) by `f` into `dst` (of type
/// `D`), elements read and written least significant byte first when
/// `little`; fails as [`map_outcome`] describes.
pub fn parallel_map_with_byte_order<S: IntScalar, D: IntScalar, F: Fn(S) -> D>(
    src: &Buffer,
    dst: &mut Buffer,
    f: F,
    little: bool,
) -> (r: MohuResult<()>)
    requires
        src@.dtype == S::tag(),
        old(dst)@.dtype == D::tag(),
        prefixes_fit(src@.layout.shape, usize::MAX as int),
        prefixes_fit(old(dst)@.layout.shape, usize::MAX as int),
        all_held(src@, little, |x: S| call_requires(f, (x,))),
    ensures
        map_outcome(f, src@, old(dst)@, final(dst)@, little, r),
{
    let _s_isz = src.itemsize();
    let _d_isz = dst.itemsize();
    let g = map_input(src, dst)?;
    let _s_bits = S::bits();
    let _d_bits = D::bits();
    let s_isz = S::dtype().itemsize();
    let d_isz = D::dtype().itemsize();
    let nb = match contiguous_nbytes(dst.shape(), d_isz) {
        Ok(nb) => nb,
        Err(e) => return Err(e),
    };
    let n = dst.len();
    proof {
        reveal(gathered);
        crate::strides::lemma_shape_product_nonneg(src@.layout.shape);
        assert(g@.len() == n * s_isz);
        crate::strides::lemma_shape_product_nonneg(dst@.layout.shape);
    }
    let ins: Vec<S> = decode_all(g.as_slice(), n, s_isz, little);
    let mut outs: Vec<D> = Vec::new();
    let mut k: usize = 0;
    while k < n
        invariant
            k <= n,
            ins@.len() == n,
            n == shape_product(src@.layout.shape),
            elements_held(g@, s_isz as nat, little, ins@),
            g@ == gathered(src@.data, src@.layout),
            s_isz == spec_itemsize(src@.dtype),
            all_held(src@, little, |x: S| call_requires(f, (x,))),
            outs@.len() == k,
            forall|j: int| 0 <= j < k ==> call_ensures(f, (ins@[j],), #[trigger] outs@[j]),
        decreases n - k,
    {
        proof {
            assert(held(ins@[k as int], element_at(g@, s_isz as nat, k as int), little));
        }
        let y = f(ins[k]);
        outs.push(y);
        k = k + 1;
    }
    proof {
        assert(outs@.len() * d_isz == shape_product(dst@.layout.shape) * dst@.layout.itemsize);
        if dst@.layout.shape.len() == 0 {
            assert(shape_product(dst@.layout.shape) == 1);
            assert(nb == d_isz);
        } else {
            assert(spec_shape_size(dst@.layout.shape) == Ok::<usize, MohuError>(n));
        }
        assert(nb == n * d_isz);
    }
    let bytes = encode_all(outs.as_slice(), d_isz, little);
    let r = dst.write_elements(bytes.as_slice());
    proof {
        assert(mapped_by(f, ins@, outs@));
    }
    r
}

/// Maps every element of `src` (of type `S`) by `f` into `dst` (of type
/// `D`), elements in the host's byte order; fails as [`map_outcome`]
/// describes.
pub fn parallel_map<S: IntScalar, D: IntScalar, F: Fn(S) -> D>(src: &Buffer, dst: &mut Buffer, f: F) -> (r: MohuResult<
    (),
>)
    requires
        src@.dtype == S::tag(),
        old(dst)@.dtype == D::tag(),
        prefixes_fit(src@.layout.shape, usize::MAX as int),
        prefixes_fit(old(dst)@.layout.shape, usize::MAX as int),
        all_held(src@, true, |x: S| call_requires(f, (x,))),
        all_held(src@, false, |x: S| call_requires(f, (x,))),
    ensures
        map_outcome(f, src@, old(dst)@, final(dst)@, true, r) || map_outcome(f, src@, old(dst)@, final(dst)@, false, r),
{
    let little = crate::compat::ByteOrder::host_is_little_endian();
    parallel_map_with_byte_order(src, dst, f, little)
}


/// The outcome of replacing every element of `before` (of type `T`) by a
/// result of `f` for it, read and written least significant byte first when
/// `little`: `NonContiguous`, `ReadOnly`, a failure to read the elements,
/// each leaving the buffer unchanged; else, for the elements `ins` and
/// results `outs` that `f` gives for them, the [`encoded`] `outs` are
/// written over the elements in C order.
pub open spec fn inplace_outcome<T: IntScalar, F: Fn(T) -> T>(
    f: F,
    before: BufferView,
    after: BufferView,
    little: bool,
    r: MohuResult<()>,
) -> bool {
    if !c_contiguous(before.layout) {
        r == Err::<(), MohuError>(MohuError::NonContiguous) && after == before
    } else if before.flags & 1u8 != 1u8 {
        r == Err::<(), MohuError>(MohuError::ReadOnly) && after == before
    } else if !readable(before) {
        read_failure(before, r) && after == before
    } else {
        exists|ins: Seq<T>, outs: Seq<T>|
            #![trigger elements_held(gathered(before.data, before.layout), spec_itemsize(T::tag()), little, ins), mapped_by(f, ins, outs)]
            {
                &&& elements_held(gathered(before.data, before.layout), spec_itemsize(T::tag()), little, ins)
                &&& mapped_by(f, ins, outs)
                &&& write_outcome(before, after, encoded(outs, spec_itemsize(T::tag()), little), r)
            }
    }
}

/// Replaces every element of `buf` (of type `T`) by the result of `f` for
/// it, elements read and written least significant byte first when
/// `little`; fails as [`inplace_outcome`] describes.
pub fn parallel_inplace_with_byte_order<T: IntScalar, F: Fn(T) -> T>(buf: &mut Buffer, f: F, little: bool) -> (r:
    MohuResult<()>)
    requires
        old(buf)@.dtype == T::tag(),
        prefixes_fit(old(buf)@.layout.shape, usize::MAX as int),
        all_held(old(buf)@, little, |x: T| call_requires(f, (x,))),
    ensures
        inplace_outcome(f, old(buf)@, final(buf)@, little, r),
{
    if !buf.is_c_contiguous() {
        return Err(MohuError::NonContiguous);
    }
    if !buf.is_writeable() {
        return Err(MohuError::ReadOnly);
    }
    let _isz = buf.itemsize();
    let g = read_all(buf)?;
    let _bits = T::bits();
    let isz = T::dtype().itemsize();
    let n = buf.len();
    proof {
        reveal(gathered);
        crate::strides::lemma_shape_product_nonneg(buf@.layout.shape);
        assert(g@.len() == n * isz);
    }
    let ins: Vec<T> = decode_all(g.as_slice(), n, isz, little);
    let mut outs: Vec<T> = Vec::new();
    let mut k: usize = 0;
    while k < n
        invariant
            k <= n,
            ins@.len() == n,
            n == shape_product(buf@.layout.shape),
            elements_held(g@, isz as nat, little, ins@),
            g@ == gathered(buf@.data, buf@.layout),
            isz == spec_itemsize(buf@.dtype),
            all_held(buf@, little, |x: T| call_requires(f, (x,))),
            outs@.len() == k,
            forall|j: int| 0 <= j < k ==> call_ensures(f, (ins@[j],), #[trigger] outs@[j]),
        decreases n - k,
    {
        proof {
            assert(held(ins@[k as int], element_at(g@, isz as nat, k as int), little));
        }
        let y = f(ins[k]);
        outs.push(y);
        k = k + 1;
    }
    let glen = g.len();
    proof {
        assert(outs@.len() * isz == glen);
    }
    let bytes = encode_all(outs.as_slice(), isz, little);
    let r = buf.write_elements(bytes.as_slice());
    proof {
        assert(mapped_by(f, ins@, outs@));
    }
    r
}

/// Replaces every element of `buf` (of type `T`) by the result of `f` for
/// it, elements in the host's byte order; fails as [`inplace_outcome`]
/// describes.
pub fn parallel_inplace<T: IntScalar, F: Fn(T) -> T>(buf: &mut Buffer, f: F) -> (r: MohuResult<()>)
    requires
        old(buf)@.dtype == T::tag(),
        prefixes_fit(old(buf)@.layout.shape, usize::MAX as int),
        all_held(old(buf)@, true, |x: T| call_requires(f, (x,))),
        all_held(old(buf)@, false, |x: T| call_requires(f, (x,))),
    ensures
        inplace_outcome(f, old(buf)@, final(buf)@, true, r) || inplace_outcome(f, old(buf)@, final(buf)@, false, r),
{
    let little = crate::compat::ByteOrder::host_is_little_endian();
    parallel_inplace_with_byte_order(buf, f, little)
}


/// `p` holds of every pair of elements of `S` held at the same position of
/// `a` and `b`, read least significant byte first when `little`.
pub open spec fn pairs_held<S: IntScalar>(a: BufferView, b: BufferView, little: bool, p: spec_fn(S, S) -> bool) -> bool {
    forall|k: int, x: S, y: S|
        0 <= k < shape_product(a.layout.shape) && #[trigger] held(
            x,
            element_at(gathered(a.data, a.layout), spec_itemsize(a.dtype), k),
            little,
        ) && #[trigger] held(y, element_at(gathered(b.data, b.layout), spec_itemsize(b.dtype), k), little) ==> p(x, y)
}

/// `zs` are results that `f` may give for `xs` and `ys`, position by
/// position.
pub open spec fn zipped_by<S, D, F: Fn(S, S) -> D>(f: F, xs: Seq<S>, ys: Seq<S>, zs: Seq<D>) -> bool {
    &&& xs.len() == ys.len() && zs.len() == xs.len()
    &&& forall|k: int| 0 <= k < xs.len() ==> call_ensures(f, (xs[k], ys[k]), #[trigger] zs[k])
}

/// Zipping `a` and `b` (of dtype `tag`) into `before` is refused: either
/// input is of another dtype, the three element counts are not all equal,
/// one of the buffers is not C-contiguous, `before` is read-only, or the
/// elements of `a` or `b` cannot be read.
pub open spec fn zip_refused(tag: DType, a: BufferView, b: BufferView, before: BufferView) -> bool {
    ||| a.dtype != tag || b.dtype != tag
    ||| shape_product(a.layout.shape) != shape_product(b.layout.shape) || shape_product(a.layout.shape)
        != shape_product(before.layout.shape)
    ||| !c_contiguous(a.layout) || !c_contiguous(b.layout) || !c_contiguous(before.layout)
    ||| before.flags & 1u8 != 1u8
    ||| !readable(a)
    ||| !readable(b)
}

/// The error of a refused zip: `DTypeMismatch` (naming the dtype of `a`),
/// `ShapeMismatch` (naming the shapes of `a` and `b`), `NonContiguous`,
/// `ReadOnly`, then a failure to read `a` or `b`, the first that applies.
pub open spec fn zip_refusal(tag: DType, a: BufferView, b: BufferView, before: BufferView, r: MohuResult<()>) -> bool {
    if a.dtype != tag || b.dtype != tag {
        r matches Err(MohuError::DTypeMismatch { expected, got }) && expected@ == spec_numpy_str(tag) && got@
            == spec_numpy_str(a.dtype)
    } else if shape_product(a.layout.shape) != shape_product(b.layout.shape) || shape_product(a.layout.shape)
        != shape_product(before.layout.shape) {
        r matches Err(MohuError::ShapeMismatch { expected, got }) && expected@ == a.layout.shape && got@
            == b.layout.shape
    } else if !c_contiguous(a.layout) || !c_contiguous(b.layout) || !c_contiguous(before.layout) {
        r == Err::<(), MohuError>(MohuError::NonContiguous)
    } else if before.flags & 1u8 != 1u8 {
        r == Err::<(), MohuError>(MohuError::ReadOnly)
    } else if !readable(a) {
        read_failure(a, r)
    } else {
        read_failure(b, r)
    }
}

/// The outcome of combining the elements of `a` and `b` (of type `S`) by
/// `f` into `before` (of type `D`), read and written least significant byte
/// first when `little`: a refusal as [`zip_refusal`] describes, or a byte
/// count of `before` that overflows, leaving `before` unchanged; else, for
/// the elements `xs` of `a`, `ys` of `b` and results `zs` that `f` gives for
/// them, the [`encoded`] `zs` are written over the elements of `before` in C
/// order.
pub open spec fn zip_outcome<S: IntScalar, D: IntScalar, F: Fn(S, S) -> D>(
    f: F,
    a: BufferView,
    b: BufferView,
    before: BufferView,
    after: BufferView,
    little: bool,
    r: MohuResult<()>,
) -> bool {
    let isz = spec_itemsize(S::tag());
    if zip_refused(S::tag(), a, b, before) {
        zip_refusal(S::tag(), a, b, before, r) && after == before
    } else if spec_contiguous_nbytes(before.layout.shape, before.layout.itemsize) is Err {
        &&& r == Err::<(), MohuError>(spec_contiguous_nbytes(before.layout.shape, before.layout.itemsize)->Err_0)
        &&& after == before
    } else {
        exists|xs: Seq<S>, ys: Seq<S>, zs: Seq<D>|
            #![trigger elements_held(gathered(a.data, a.layout), isz, little, xs), elements_held(gathered(b.data, b.layout), isz, little, ys), zipped_by(f, xs, ys, zs)]
            {
                &&& elements_held(gathered(a.data, a.layout), isz, little, xs)
                &&& elements_held(gathered(b.data, b.layout), isz, little, ys)
                &&& zipped_by(f, xs, ys, zs)
                &&& write_outcome(before, after, encoded(zs, spec_itemsize(D::tag()), little), r)
            }
    }
}

/// Combines element `k` of `a` with element `k` of `b` (both of type `S`)
/// by `f` into element `k` of `dst` (of type `D`), elements read and written
/// least significant byte first when `little`; fails as [`zip_outcome`]
/// describes.
pub fn parallel_zip_with_byte_order<S: IntScalar, D: IntScalar, F: Fn(S, S) -> D>(
    a: &Buffer,
    b: &Buffer,
    dst: &mut Buffer,
    f: F,
    little: bool,
) -> (r: MohuResult<()>)
    requires
        old(dst)@.dtype == D::tag(),
        prefixes_fit(a@.layout.shape, usize::MAX as int),
        prefixes_fit(b@.layout.shape, usize::MAX as int),
        prefixes_fit(old(dst)@.layout.shape, usize::MAX as int),
        pairs_held(a@, b@, little, |x: S, y: S| call_requires(f, (x, y))),
    ensures
        zip_outcome(f, a@, b@, old(dst)@, final(dst)@, little, r),
{
    let tag = S::dtype();
    if tag != a.dtype() || tag != b.dtype() {
        return Err(MohuError::DTypeMismatch { expected: tag.to_string(), got: a.dtype().to_string() });
    }
    if a.len() != b.len() || a.len() != dst.len() {
        return Err(MohuError::ShapeMismatch { expected: slice_to_vec(a.shape()), got: slice_to_vec(b.shape()) });
    }
    if !a.is_c_contiguous() || !b.is_c_contiguous() || !dst.is_c_contiguous() {
        return Err(MohuError::NonContiguous);
    }
    if !dst.is_writeable() {
        return Err(MohuError::ReadOnly);
    }
    let _a_isz = a.itemsize();
    let _b_isz = b.itemsize();
    let _d_isz = dst.itemsize();
    let ga = read_all(a)?;
    let gb = read_all(b)?;
    let _s_bits = S::bits();
    let _d_bits = D::bits();
    let isz = tag.itemsize();
    let d_isz = D::dtype().itemsize();
    let nb = match contiguous_nbytes(dst.shape(), d_isz) {
        Ok(nb) => nb,
        Err(e) => return Err(e),
    };
    let n = a.len();
    proof {
        reveal(gathered);
        crate::strides::lemma_shape_product_nonneg(a@.layout.shape);
        crate::strides::lemma_shape_product_nonneg(b@.layout.shape);
        crate::strides::lemma_shape_product_nonneg(dst@.layout.shape);
        assert(ga@.len() == n * isz);
        assert(gb@.len() == n * isz);
    }
    let xs: Vec<S> = decode_all(ga.as_slice(), n, isz, little);
    let ys: Vec<S> = decode_all(gb.as_slice(), n, isz, little);
    let mut zs: Vec<D> = Vec::new();
    let mut k: usize = 0;
    while k < n
        invariant
            k <= n,
            xs@.len() == n,
            ys@.len() == n,
            n == shape_product(a@.layout.shape),
            elements_held(ga@, isz as nat, little, xs@),
            elements_held(gb@, isz as nat, little, ys@),
            ga@ == gathered(a@.data, a@.layout),
            gb@ == gathered(b@.data, b@.layout),
            isz == spec_itemsize(a@.dtype),
            isz == spec_itemsize(b@.dtype),
            pairs_held(a@, b@, little, |x: S, y: S| call_requires(f, (x, y))),
            zs@.len() == k,
            forall|j: int| 0 <= j < k ==> call_ensures(f, (xs@[j], ys@[j]), #[trigger] zs@[j]),
        decreases n - k,
    {
        proof {
            assert(held(xs@[k as int], element_at(ga@, isz as nat, k as int), little));
            assert(held(ys@[k as int], element_at(gb@, isz as nat, k as int), little));
        }
        let z = f(xs[k], ys[k]);
        zs.push(z);
        k = k + 1;
    }
    proof {
        assert(shape_product(dst@.layout.shape) == n);
        if dst@.layout.shape.len() == 0 {
            assert(shape_product(dst@.layout.shape) == 1);
            assert(nb == d_isz);
        } else {
            assert(spec_shape_size(dst@.layout.shape) == Ok::<usize, MohuError>(n));
        }
        assert(nb == n * d_isz);
    }
    let bytes = encode_all(zs.as_slice(), d_isz, little);
    let r = dst.write_elements(bytes.as_slice());
    proof {
        assert(zipped_by(f, xs@, ys@, zs@));
    }
    r
}

/// Combines element `k` of `a` with element `k` of `b` (both of type `S`)
/// by `f` into element `k` of `dst` (of type `D`), elements in the host's
/// byte order; fails as [`zip_outcome`] describes.
pub fn parallel_zip<S: IntScalar, D: IntScalar, F: Fn(S, S) -> D>(a: &Buffer, b: &Buffer, dst: &mut Buffer, f: F) -> (r:
    MohuResult<()>)
    requires
        old(dst)@.dtype == D::tag(),
        prefixes_fit(a@.layout.shape, usize::MAX as int),
        prefixes_fit(b@.layout.shape, usize::MAX as int),
        prefixes_fit(old(dst)@.layout.shape, usize::MAX as int),
        pairs_held(a@, b@, true, |x: S, y: S| call_requires(f, (x, y))),
        pairs_held(a@, b@, false, |x: S, y: S| call_requires(f, (x, y))),
    ensures
        zip_outcome(f, a@, b@, old(dst)@, final(dst)@, true, r) || zip_outcome(f, a@, b@, old(dst)@, final(dst)@, false, r),
{
    let little = crate::compat::ByteOrder::host_is_little_endian();
    parallel_zip_with_byte_order(a, b, dst, f, little)
}


/// The outcome of reducing `b` (elements of type `T`, read least
/// significant byte first when `little`): `DTypeMismatch` when `b` is not of
/// dtype `T`, `NonContiguous`, a failure to read the elements; else, for the
/// elements `ins`, results `ms` that `map_fn` gives for them and running
/// results `accs` of `combine` over `ms` from `init` ([`scan_of`]), the
/// last running result (`init` when there are no elements).
pub open spec fn reduce_outcome<T: IntScalar, R, F: Fn(T) -> R, G: Fn(R, R) -> R>(
    b: BufferView,
    init: R,
    map_fn: F,
    combine: G,
    little: bool,
    r: MohuResult<R>,
) -> bool {
    if b.dtype != T::tag() {
        r matches Err(MohuError::DTypeMismatch { expected, got }) && expected@ == spec_numpy_str(T::tag()) && got@
            == spec_numpy_str(b.dtype)
    } else if !c_contiguous(b.layout) {
        r matches Err(MohuError::NonContiguous)
    } else if !readable(b) {
        read_failure(
            b,
            match r {
                Ok(_) => Ok(()),
                Err(e) => Err(e),
            },
        )
    } else {
        exists|ins: Seq<T>, ms: Seq<R>, accs: Seq<R>|
            #![trigger elements_held(gathered(b.data, b.layout), spec_itemsize(T::tag()), little, ins), mapped_by(map_fn, ins, ms), scan_of(combine, init, ms, accs)]
            {
                &&& elements_held(gathered(b.data, b.layout), spec_itemsize(T::tag()), little, ins)
                &&& mapped_by(map_fn, ins, ms)
                &&& scan_of(combine, init, ms, accs)
                &&& r == Ok::<R, MohuError>(
                    if accs.len() == 0 {
                        init
                    } else {
                        accs.last()
                    },
                )
            }
    }
}

/// Folds `combine` from `init` over the results of `map_fn` for every
/// element of `buf` (of type `T`), in C order, elements read least
/// significant byte first when `little`; fails as [`reduce_outcome`]
/// describes.
pub fn reduce_with_byte_order<T: IntScalar, R, F: Fn(T) -> R, G: Fn(R, R) -> R>(
    buf: &Buffer,
    init: R,
    map_fn: F,
    combine: G,
    little: bool,
) -> (r: MohuResult<R>)
    requires
        prefixes_fit(buf@.layout.shape, usize::MAX as int),
        all_held(buf@, little, |x: T| call_requires(map_fn, (x,))),
        forall|p: R, q: R| call_requires(combine, (p, q)),
    ensures
        reduce_outcome(buf@, init, map_fn, combine, little, r),
{
    let tag = T::dtype();
    if tag != buf.dtype() {
        return Err(MohuError::DTypeMismatch { expected: tag.to_string(), got: buf.dtype().to_string() });
    }
    if !buf.is_c_contiguous() {
        return Err(MohuError::NonContiguous);
    }
    let _isz = buf.itemsize();
    let g = match read_all(buf) {
        Ok(g) => g,
        Err(e) => return Err(e),
    };
    let _bits = T::bits();
    let isz = tag.itemsize();
    let n = buf.len();
    proof {
        reveal(gathered);
        crate::strides::lemma_shape_product_nonneg(buf@.layout.shape);
        assert(g@.len() == n * isz);
    }
    let ins: Vec<T> = decode_all(g.as_slice(), n, isz, little);
    let ghost mut ms: Seq<R> = Seq::empty();
    let ghost mut accs: Seq<R> = Seq::empty();
    let mut acc = init;
    let mut k: usize = 0;
    while k < n
        invariant
            k <= n,
            ins@.len() == n,
            n == shape_product(buf@.layout.shape),
            elements_held(g@, isz as nat, little, ins@),
            g@ == gathered(buf@.data, buf@.layout),
            isz == spec_itemsize(buf@.dtype),
            all_held(buf@, little, |x: T| call_requires(map_fn, (x,))),
            forall|p: R, q: R| call_requires(combine, (p, q)),
            ms.len() == k,
            forall|j: int| 0 <= j < k ==> call_ensures(map_fn, (ins@[j],), #[trigger] ms[j]),
            scan_of(combine, init, ms, accs),
            acc == (if k == 0 {
                init
            } else {
                accs[k - 1]
            }),
        decreases n - k,
    {
        proof {
            assert(held(ins@[k as int], element_at(g@, isz as nat, k as int), little));
        }
        let m = map_fn(ins[k]);
        let next = combine(acc, m);
        proof {
            let ms0 = ms;
            let accs0 = accs;
            ms = ms.push(m);
            accs = accs.push(next);
            assert forall|j: int| 0 <= j < k + 1 implies call_ensures(map_fn, (ins@[j],), #[trigger] ms[j]) by {
                if j < k {
                    assert(ms[j] == ms0[j]);
                }
            }
            assert forall|j: int| 0 <= j < ms.len() implies call_ensures(
                combine,
                (
                    if j == 0 {
                        init
                    } else {
                        accs[j - 1]
                    },
                    ms[j],
                ),
                #[trigger] accs[j],
            ) by {
                if j < k {
                    assert(accs[j] == accs0[j]);
                    assert(ms[j] == ms0[j]);
                    if j > 0 {
                        assert(accs[j - 1] == accs0[j - 1]);
                    }
                }
            }
        }
        acc = next;
        k = k + 1;
    }
    proof {
        assert(mapped_by(map_fn, ins@, ms));
    }
    Ok(acc)
}

/// Folds `combine` from `init` over the results of `map_fn` for every
/// element of `buf` (of type `T`), in C order, elements in the host's byte
/// order; fails as [`reduce_outcome`] describes.
pub fn reduce<T: IntScalar, R, F: Fn(T) -> R, G: Fn(R, R) -> R>(buf: &Buffer, init: R, map_fn: F, combine: G) -> (r:
    MohuResult<R>)
    requires
        prefixes_fit(buf@.layout.shape, usize::MAX as int),
        all_held(buf@, true, |x: T| call_requires(map_fn, (x,))),
        all_held(buf@, false, |x: T| call_requires(map_fn, (x,))),
        forall|p: R, q: R| call_requires(combine, (p, q)),
    ensures
        reduce_outcome(buf@, init, map_fn, combine, true, r) || reduce_outcome(buf@, init, map_fn, combine, false, r),
{
    let little = crate::compat::ByteOrder::host_is_little_endian();
    reduce_with_byte_order(buf, init, map_fn, combine, little)
}


// ─── Arithmetic with a scalar ────────────────────────────────────────────────

/// Integer division rounding toward zero: the quotient of the magnitudes,
/// negative when exactly one operand is.
pub open spec fn trunc_div(a: int, b: int) -> int {
    let q = abs_int(a) / abs_int(b);
    if (a < 0) != (b < 0) {
        -q
    } else {
        q
    }
}

/// The outcome of replacing every element of `before` (of type `T`) by the
/// element of value `g` of its value, read and written least significant
/// byte first when `little`: `NonContiguous`, `ReadOnly`, a failure to read
/// the elements, each leaving the buffer unchanged; else, for the elements
/// `ins`, the [`encoded`] elements of values `g` of theirs are written over
/// them in C order.
pub open spec fn update_outcome<T: IntScalar>(
    g: spec_fn(int) -> int,
    before: BufferView,
    after: BufferView,
    little: bool,
    r: MohuResult<()>,
) -> bool {
    if !c_contiguous(before.layout) {
        r == Err::<(), MohuError>(MohuError::NonContiguous) && after == before
    } else if before.flags & 1u8 != 1u8 {
        r == Err::<(), MohuError>(MohuError::ReadOnly) && after == before
    } else if !readable(before) {
        read_failure(before, r) && after == before
    } else {
        exists|ins: Seq<T>, outs: Seq<T>|
            #![trigger elements_held(gathered(before.data, before.layout), spec_itemsize(T::tag()), little, ins), encoded(outs, spec_itemsize(T::tag()), little)]
            {
                &&& elements_held(gathered(before.data, before.layout), spec_itemsize(T::tag()), little, ins)
                &&& outs.len() == ins.len()
                &&& forall|k: int| 0 <= k < ins.len() ==> #[trigger] outs[k].value() == g(ins[k].value())
                &&& write_outcome(before, after, encoded(outs, spec_itemsize(T::tag()), little), r)
            }
    }
}

/// Every element of `b`, read least significant byte first when `little`,
/// has a value that `ok` accepts.
pub open spec fn values_ok<T: IntScalar>(b: BufferView, little: bool, ok: spec_fn(int) -> bool) -> bool {
    all_held(b, little, |x: T| ok(x.value()))
}

/// Replaces every element of `buf` by the result of `f` for it, where `f`
/// computes the element of value `g` of the value of its argument.
fn update_with<T: IntScalar, F: Fn(T) -> T>(
    buf: &mut Buffer,
    f: F,
    Ghost(g): Ghost<spec_fn(int) -> int>,
    Ghost(ok): Ghost<spec_fn(int) -> bool>,
    little: bool,
) -> (r: MohuResult<()>)
    requires
        old(buf)@.dtype == T::tag(),
        prefixes_fit(old(buf)@.layout.shape, usize::MAX as int),
        values_ok::<T>(old(buf)@, little, ok),
        forall|x: T| ok(x.value()) ==> call_requires(f, (x,)),
        forall|x: T, y: T| call_ensures(f, (x,), y) ==> y.value() == g(x.value()),
    ensures
        update_outcome::<T>(g, old(buf)@, final(buf)@, little, r),
{
    proof {
        assert forall|k: int, x: T|
            0 <= k < shape_product(buf@.layout.shape) && #[trigger] held(
                x,
                element_at(gathered(buf@.data, buf@.layout), spec_itemsize(buf@.dtype), k),
                little,
            ) implies call_requires(f, (x,)) by {
            assert(ok(x.value()));
        }
    }
    let ghost b0 = buf@;
    let r = parallel_inplace_with_byte_order(buf, f, little);
    proof {
        if c_contiguous(b0.layout) && b0.flags & 1u8 == 1u8 && readable(b0) {
            let isz = spec_itemsize(T::tag());
            let gg = gathered(b0.data, b0.layout);
            let (ins, outs) = choose|ins: Seq<T>, outs: Seq<T>|
                {
                    &&& elements_held(gg, isz, little, ins)
                    &&& mapped_by(f, ins, outs)
                    &&& write_outcome(b0, buf@, encoded(outs, isz, little), r)
                };
            assert forall|k: int| 0 <= k < ins.len() implies #[trigger] outs[k].value() == g(ins[k].value()) by {
                assert(call_ensures(f, (ins[k],), outs[k]));
            }
            assert(elements_held(gg, isz, little, ins));
            assert(encoded(outs, isz, little) == encoded(outs, isz, little));
        }
    }
    r
}

/// Adds `scalar` to every element of `buf` in place, elements read and
/// written least significant byte first when `little`; fails as
/// [`update_outcome`] describes. No sum may leave the range of `T`.
pub fn add_scalar_inplace_with_byte_order<T: IntScalar>(buf: &mut Buffer, scalar: T, little: bool) -> (r: MohuResult<
    (),
>)
    requires
        old(buf)@.dtype == T::tag(),
        prefixes_fit(old(buf)@.layout.shape, usize::MAX as int),
        values_ok::<T>(old(buf)@, little, |v: int| T::lowest() <= v + scalar.value() <= T::highest()),
    ensures
        update_outcome::<T>(|v: int| v + scalar.value(), old(buf)@, final(buf)@, little, r),
{
    let s = scalar.to_i128();
    proof {
        T::lemma_limits();
    }
    let f = |x: T| -> (y: T)
        requires
            T::lowest() <= x.value() + s <= T::highest(),
        ensures
            y.value() == x.value() + s,
        {
            proof {
                T::lemma_limits();
            }
            T::from_i128(x.to_i128() + s)
        };
    update_with(
        buf,
        f,
        Ghost(|v: int| v + scalar.value()),
        Ghost(|v: int| T::lowest() <= v + scalar.value() <= T::highest()),
        little,
    )
}

/// Adds `scalar` to every element of `buf` in place, elements in the host's
/// byte order; fails as [`update_outcome`] describes. No sum may leave the
/// range of `T`.
pub fn add_scalar_inplace<T: IntScalar>(buf: &mut Buffer, scalar: T) -> (r: MohuResult<()>)
    requires
        old(buf)@.dtype == T::tag(),
        prefixes_fit(old(buf)@.layout.shape, usize::MAX as int),
        values_ok::<T>(old(buf)@, true, |v: int| T::lowest() <= v + scalar.value() <= T::highest()),
        values_ok::<T>(old(buf)@, false, |v: int| T::lowest() <= v + scalar.value() <= T::highest()),
    ensures
        update_outcome::<T>(|v: int| v + scalar.value(), old(buf)@, final(buf)@, true, r) || update_outcome::<T>(
            |v: int| v + scalar.value(),
            old(buf)@,
            final(buf)@,
            false,
            r,
        ),
{
    let little = crate::compat::ByteOrder::host_is_little_endian();
    add_scalar_inplace_with_byte_order(buf, scalar, little)
}


/// Subtracts `scalar` from every element of `buf` in place, elements read
/// and written least significant byte first when `little`; fails as
/// [`update_outcome`] describes. No difference may leave the range of `T`.
pub fn sub_scalar_inplace_with_byte_order<T: IntScalar>(buf: &mut Buffer, scalar: T, little: bool) -> (r: MohuResult<
    (),
>)
    requires
        old(buf)@.dtype == T::tag(),
        prefixes_fit(old(buf)@.layout.shape, usize::MAX as int),
        values_ok::<T>(old(buf)@, little, |v: int| T::lowest() <= v - scalar.value() <= T::highest()),
    ensures
        update_outcome::<T>(|v: int| v - scalar.value(), old(buf)@, final(buf)@, little, r),
{
    let s = scalar.to_i128();
    proof {
        T::lemma_limits();
    }
    let f = |x: T| -> (y: T)
        requires
            T::lowest() <= x.value() - s <= T::highest(),
        ensures
            y.value() == x.value() - s,
        {
            proof {
                T::lemma_limits();
            }
            T::from_i128(x.to_i128() - s)
        };
    update_with(
        buf,
        f,
        Ghost(|v: int| v - scalar.value()),
        Ghost(|v: int| T::lowest() <= v - scalar.value() <= T::highest()),
        little,
    )
}

/// Subtracts `scalar` from every element of `buf` in place, elements in the
/// host's byte order; fails as [`update_outcome`] describes. No difference
/// may leave the range of `T`.
pub fn sub_scalar_inplace<T: IntScalar>(buf: &mut Buffer, scalar: T) -> (r: MohuResult<()>)
    requires
        old(buf)@.dtype == T::tag(),
        prefixes_fit(old(buf)@.layout.shape, usize::MAX as int),
        values_ok::<T>(old(buf)@, true, |v: int| T::lowest() <= v - scalar.value() <= T::highest()),
        values_ok::<T>(old(buf)@, false, |v: int| T::lowest() <= v - scalar.value() <= T::highest()),
    ensures
        update_outcome::<T>(|v: int| v - scalar.value(), old(buf)@, final(buf)@, true, r) || update_outcome::<T>(
            |v: int| v - scalar.value(),
            old(buf)@,
            final(buf)@,
            false,
            r,
        ),
{
    let little = crate::compat::ByteOrder::host_is_little_endian();
    sub_scalar_inplace_with_byte_order(buf, scalar, little)
}

/// Multiplies every element of `buf` by `scalar` in place, elements read
/// and written least significant byte first when `little`; fails as
/// [`update_outcome`] describes. No product may leave the range of `T`.
pub fn mul_scalar_inplace_with_byte_order<T: IntScalar>(buf: &mut Buffer, scalar: T, little: bool) -> (r: MohuResult<
    (),
>)
    requires
        old(buf)@.dtype == T::tag(),
        prefixes_fit(old(buf)@.layout.shape, usize::MAX as int),
        values_ok::<T>(old(buf)@, little, |v: int| T::lowest() <= v * scalar.value() <= T::highest()),
    ensures
        update_outcome::<T>(|v: int| v * scalar.value(), old(buf)@, final(buf)@, little, r),
{
    let s = scalar.to_i128();
    proof {
        T::lemma_limits();
    }
    let f = |x: T| -> (y: T)
        requires
            T::lowest() <= x.value() * s <= T::highest(),
        ensures
            y.value() == x.value() * s,
        {
            proof {
                T::lemma_limits();
            }
            T::from_i128(x.to_i128() * s)
        };
    update_with(
        buf,
        f,
        Ghost(|v: int| v * scalar.value()),
        Ghost(|v: int| T::lowest() <= v * scalar.value() <= T::highest()),
        little,
    )
}

/// Multiplies every element of `buf` by `scalar` in place, elements in the
/// host's byte order; fails as [`update_outcome`] describes. No product may
/// leave the range of `T`.
pub fn mul_scalar_inplace<T: IntScalar>(buf: &mut Buffer, scalar: T) -> (r: MohuResult<()>)
    requires
        old(buf)@.dtype == T::tag(),
        prefixes_fit(old(buf)@.layout.shape, usize::MAX as int),
        values_ok::<T>(old(buf)@, true, |v: int| T::lowest() <= v * scalar.value() <= T::highest()),
        values_ok::<T>(old(buf)@, false, |v: int| T::lowest() <= v * scalar.value() <= T::highest()),
    ensures
        update_outcome::<T>(|v: int| v * scalar.value(), old(buf)@, final(buf)@, true, r) || update_outcome::<T>(
            |v: int| v * scalar.value(),
            old(buf)@,
            final(buf)@,
            false,
            r,
        ),
{
    let little = crate::compat::ByteOrder::host_is_little_endian();
    mul_scalar_inplace_with_byte_order(buf, scalar, little)
}

/// The quotient of `a` by `b`, rounded toward zero.
fn div_toward_zero(a: i128, b: i128) -> (q: i128)
    requires
        b != 0,
        -0x1_0000_0000_0000_0000 <= a <= 0x1_0000_0000_0000_0000,
        -0x1_0000_0000_0000_0000 <= b <= 0x1_0000_0000_0000_0000,
    ensures
        q == trunc_div(a as int, b as int),
{
    let ma: u128 = if a < 0 {
        (-a) as u128
    } else {
        a as u128
    };
    let mb: u128 = if b < 0 {
        (-b) as u128
    } else {
        b as u128
    };
    let m = ma / mb;
    proof {
        assert(m <= ma) by (nonlinear_arith)
            requires
                mb >= 1,
                m == ma / mb,
        ;
    }
    if (a < 0) != (b < 0) {
        -(m as i128)
    } else {
        m as i128
    }
}

/// Divides every element of `buf` by `scalar` in place, rounding toward
/// zero, elements read and written least significant byte first when
/// `little`; fails as [`update_outcome`] describes. A buffer with elements
/// needs a nonzero divisor, and no quotient may leave the range of `T`.
pub fn div_scalar_inplace_with_byte_order<T: IntScalar>(buf: &mut Buffer, scalar: T, little: bool) -> (r: MohuResult<
    (),
>)
    requires
        old(buf)@.dtype == T::tag(),
        prefixes_fit(old(buf)@.layout.shape, usize::MAX as int),
        values_ok::<T>(
            old(buf)@,
            little,
            |v: int| scalar.value() != 0 && T::lowest() <= trunc_div(v, scalar.value()) <= T::highest(),
        ),
    ensures
        update_outcome::<T>(|v: int| trunc_div(v, scalar.value()), old(buf)@, final(buf)@, little, r),
{
    let s = scalar.to_i128();
    proof {
        T::lemma_limits();
    }
    let f = |x: T| -> (y: T)
        requires
            s != 0 && T::lowest() <= trunc_div(x.value(), s as int) <= T::highest(),
        ensures
            y.value() == trunc_div(x.value(), s as int),
        {
            proof {
                T::lemma_limits();
            }
            T::from_i128(div_toward_zero(x.to_i128(), s))
        };
    update_with(
        buf,
        f,
        Ghost(|v: int| trunc_div(v, scalar.value())),
        Ghost(|v: int| scalar.value() != 0 && T::lowest() <= trunc_div(v, scalar.value()) <= T::highest()),
        little,
    )
}

/// Divides every element of `buf` by `scalar` in place, rounding toward
/// zero, elements in the host's byte order; fails as [`update_outcome`]
/// describes. A buffer with elements needs a nonzero divisor, and no
/// quotient may leave the range of `T`.
pub fn div_scalar_inplace<T: IntScalar>(buf: &mut Buffer, scalar: T) -> (r: MohuResult<()>)
    requires
        old(buf)@.dtype == T::tag(),
        prefixes_fit(old(buf)@.layout.shape, usize::MAX as int),
        values_ok::<T>(
            old(buf)@,
            true,
            |v: int| scalar.value() != 0 && T::lowest() <= trunc_div(v, scalar.value()) <= T::highest(),
        ),
        values_ok::<T>(
            old(buf)@,
            false,
            |v: int| scalar.value() != 0 && T::lowest() <= trunc_div(v, scalar.value()) <= T::highest(),
        ),
    ensures
        update_outcome::<T>(|v: int| trunc_div(v, scalar.value()), old(buf)@, final(buf)@, true, r)
            || update_outcome::<T>(|v: int| trunc_div(v, scalar.value()), old(buf)@, final(buf)@, false, r),
{
    let little = crate::compat::ByteOrder::host_is_little_endian();
    div_scalar_inplace_with_byte_order(buf, scalar, little)
}


// ─── Casting between element types ───────────────────────────────────────────

/// How a cast of one buffer into another proceeds once its checks pass: a
/// plain copy of the elements (the dtypes agree), or a conversion of each
/// element.
#[derive(Debug, Clone, Copy, PartialEq, Eq, Structural)]
pub enum CastPlan {
    /// The dtypes agree: the elements are copied as they are.
    Copy,
    /// Each element is converted to the destination dtype.
    Convert,
}

/// The reason an `InvalidCast` gives for a cast that `mode` refuses.
pub open spec fn cast_refusal_text(mode: CastMode) -> Seq<char> {
    match mode {
        CastMode::Safe => "Safe cast is not permitted"@,
        CastMode::SameKind => "SameKind cast is not permitted"@,
        CastMode::Unsafe => "Unsafe cast is not permitted"@,
    }
}

/// Checks a cast of the elements of `src` into `dst` under `mode`:
/// `ShapeMismatch` when the element counts differ; a plain copy when the
/// dtypes agree; `InvalidCast` when `mode` does not permit the cast;
/// `ReadOnly` for a destination that is not writeable; else a conversion.
pub fn cast_copy_plan(src: &Buffer, dst: &Buffer, mode: CastMode) -> (r: MohuResult<CastPlan>)
    requires
        prefixes_fit(src@.layout.shape, usize::MAX as int),
        prefixes_fit(dst@.layout.shape, usize::MAX as int),
    ensures
        shape_product(src@.layout.shape) != shape_product(dst@.layout.shape) ==> (r matches Err(
            MohuError::ShapeMismatch { expected, got },
        ) && expected@ == src@.layout.shape && got@ == dst@.layout.shape),
        shape_product(src@.layout.shape) == shape_product(dst@.layout.shape) && src@.dtype == dst@.dtype ==> r
            == Ok::<CastPlan, MohuError>(CastPlan::Copy),
        shape_product(src@.layout.shape) == shape_product(dst@.layout.shape) && src@.dtype != dst@.dtype
            && !spec_can_cast(src@.dtype, dst@.dtype, mode) ==> (r matches Err(
            MohuError::InvalidCast { from, to, reason },
        ) && from@ == spec_numpy_str(src@.dtype) && to@ == spec_numpy_str(dst@.dtype) && reason@
            == cast_refusal_text(mode)),
        shape_product(src@.layout.shape) == shape_product(dst@.layout.shape) && src@.dtype != dst@.dtype
            && spec_can_cast(src@.dtype, dst@.dtype, mode) ==> r == (if dst@.flags & 1u8 == 1u8 {
            Ok::<CastPlan, MohuError>(CastPlan::Convert)
        } else {
            Err::<CastPlan, MohuError>(MohuError::ReadOnly)
        }),
{
    if src.len() != dst.len() {
        return Err(MohuError::ShapeMismatch { expected: slice_to_vec(src.shape()), got: slice_to_vec(dst.shape()) });
    }
    if src.dtype() == dst.dtype() {
        return Ok(CastPlan::Copy);
    }
    if !can_cast(src.dtype(), dst.dtype(), mode) {
        let reason = match mode {
            CastMode::Safe => string_of("Safe cast is not permitted"),
            CastMode::SameKind => string_of("SameKind cast is not permitted"),
            CastMode::Unsafe => string_of("Unsafe cast is not permitted"),
        };
        return Err(MohuError::InvalidCast { from: src.dtype().to_string(), to: dst.dtype().to_string(), reason });
    }
    if !dst.is_writeable() {
        return Err(MohuError::ReadOnly);
    }
    Ok(CastPlan::Convert)
}


// ─── Filling with a typed value ──────────────────────────────────────────────

/// Fills every element of `buf` with `value`, its bytes least significant
/// first when `little`: `DTypeMismatch` when `buf` is not of dtype `T`, then
/// as [`fill_raw`] does with the bytes of `value`.
pub fn fill_with_byte_order<T: IntScalar>(buf: &mut Buffer, value: T, little: bool) -> (r: MohuResult<()>)
    requires
        prefixes_fit(old(buf)@.layout.shape, usize::MAX as int),
        shape_product(old(buf)@.layout.shape) * old(buf)@.layout.itemsize <= usize::MAX,
    ensures
        old(buf)@.dtype != T::tag() ==> (r matches Err(MohuError::DTypeMismatch { expected, got }) && expected@
            == spec_numpy_str(T::tag()) && got@ == spec_numpy_str(old(buf)@.dtype) && final(buf)@ == old(buf)@),
        old(buf)@.dtype == T::tag() && old(buf)@.flags & 1u8 != 1u8 ==> (r == Err::<(), MohuError>(
            MohuError::ReadOnly,
        ) && final(buf)@ == old(buf)@),
        old(buf)@.dtype == T::tag() && old(buf)@.flags & 1u8 == 1u8 ==> write_outcome(
            old(buf)@,
            final(buf)@,
            repeated(
                pattern_bytes(pattern64(value.value()), spec_itemsize(T::tag()), little),
                shape_product(old(buf)@.layout.shape) as nat,
            ),
            r,
        ),
{
    let tag = T::dtype();
    if tag != buf.dtype() {
        return Err(MohuError::DTypeMismatch { expected: tag.to_string(), got: buf.dtype().to_string() });
    }
    let _isz = buf.itemsize();
    let _bits = T::bits();
    let pattern = bytes_of_pattern(value.to_u64_bits(), tag.itemsize(), little);
    fill_raw(buf, pattern.as_slice())
}

/// Fills every element of `buf` with `value`, in the host's byte order;
/// fails as [`fill_with_byte_order`] describes.
pub fn fill<T: IntScalar>(buf: &mut Buffer, value: T) -> (r: MohuResult<()>)
    requires
        prefixes_fit(old(buf)@.layout.shape, usize::MAX as int),
        shape_product(old(buf)@.layout.shape) * old(buf)@.layout.itemsize <= usize::MAX,
    ensures
        old(buf)@.dtype != T::tag() ==> (r matches Err(MohuError::DTypeMismatch { expected, got }) && expected@
            == spec_numpy_str(T::tag()) && got@ == spec_numpy_str(old(buf)@.dtype) && final(buf)@ == old(buf)@),
        old(buf)@.dtype == T::tag() && old(buf)@.flags & 1u8 != 1u8 ==> (r == Err::<(), MohuError>(
            MohuError::ReadOnly,
        ) && final(buf)@ == old(buf)@),
        old(buf)@.dtype == T::tag() && old(buf)@.flags & 1u8 == 1u8 ==> (write_outcome(
            old(buf)@,
            final(buf)@,
            repeated(
                pattern_bytes(pattern64(value.value()), spec_itemsize(T::tag()), true),
                shape_product(old(buf)@.layout.shape) as nat,
            ),
            r,
        ) || write_outcome(
            old(buf)@,
            final(buf)@,
            repeated(
                pattern_bytes(pattern64(value.value()), spec_itemsize(T::tag()), false),
                shape_product(old(buf)@.layout.shape) as nat,
            ),
            r,
        )),
{
    let little = crate::compat::ByteOrder::host_is_little_endian();
    fill_with_byte_order(buf, value, little)
}


// ─── Negation and absolute value of integer elements ─────────────────────────

/// `2^64`.
pub open spec fn two64() -> nat {
    0x1_0000_0000_0000_0000
}

/// The two's-complement negation, wrapped into 64 bits, of the pattern `u`;
/// its low bytes are the wrapped negation in any narrower width.
pub open spec fn neg_pattern(u: nat) -> u64 {
    if u == 0 {
        0
    } else {
        (two64() - u) as u64
    }
}

/// The absolute value, wrapped into `8 * isz` bits, of the signed element
/// with pattern `u` of `isz` bytes: a negative one (top bit set) is negated,
/// so the least value stays itself.
pub open spec fn abs_pattern(u: nat, isz: nat) -> u64 {
    if u >= pow256(isz) / 2 {
        (pow256(isz) - u) as u64
    } else {
        u as u64
    }
}

/// The C-order element bytes `g` with each element's pattern (`isz` bytes,
/// least significant first when `little`) negated when `neg`, else replaced
/// by its absolute value, and written back in the same byte order.
pub open spec fn patterns_mapped(g: Seq<u8>, isz: nat, little: bool, neg: bool) -> Seq<u8> {
    Seq::new(
        g.len(),
        |i: int|
            {
                let u = uint_of_bytes(element_at(g, isz, i / (isz as int)), little);
                pattern_bytes(if neg { neg_pattern(u) } else { abs_pattern(u, isz) }, isz, little)[i % (isz as int)]
            },
    )
}

/// Maps each element of `g` as [`patterns_mapped`] describes.
fn map_patterns(g: &Vec<u8>, isz: usize, little: bool, neg: bool) -> (r: Vec<u8>)
    requires
        isz == 1 || isz == 2 || isz == 4 || isz == 8,
        g@.len() % (isz as nat) == 0,
    ensures
        r@ == patterns_mapped(g@, isz as nat, little, neg),
{
    let glen = g.len();
    let n = glen / isz;
    proof {
        vstd::arithmetic::div_mod::lemma_fundamental_div_mod(glen as int, isz as int);
        assert(glen == n * isz) by (nonlinear_arith)
            requires
                glen == isz * (glen / isz) + glen % isz,
                glen % isz == 0,
                n == glen / isz,
        ;
    }
    let mut out: Vec<u8> = Vec::new();
    let mut k: usize = 0;
    while k < n
        invariant
            k <= n,
            glen == g@.len(),
            glen == n * isz,
            isz == 1 || isz == 2 || isz == 4 || isz == 8,
            out@.len() == k * isz,
            forall|i: int| 0 <= i < k * isz ==> #[trigger] out@[i] == patterns_mapped(g@, isz as nat, little, neg)[i],
        decreases n - k,
    {
        let ghost before = out@;
        proof {
            assert(k * isz + isz <= n * isz) by (nonlinear_arith)
                requires
                    k < n,
            ;
            assert((k + 1) * isz == k * isz + isz) by (nonlinear_arith);
        }
        let u = read_uint(g.as_slice(), k * isz, isz, little);
        let ghost uu = uint_of_bytes(element_at(g@, isz as nat, k as int), little);
        proof {
            assert(u == uu);
            let e = g@.subrange(k * isz, k * isz + isz);
            assert(element_at(g@, isz as nat, k as int) == e);
            lemma_be_value_bound(e);
            lemma_be_value_bound(byte_reversed(e));
            assert(byte_reversed(e).len() == isz);
            assert(uu < pow256(isz as nat));
            lemma_pow256_mono(isz as nat, 8);
            assert(pow256(8) == 0x1_0000_0000_0000_0000) by {
                reveal_with_fuel(pow256, 9);
            }
            lemma_pow_isz(isz as nat);
        }
        let p: u64 = if isz == 1 {
            256
        } else if isz == 2 {
            0x1_0000
        } else if isz == 4 {
            0x1_0000_0000
        } else {
            0
        };
        let w: u64 = if neg {
            if u == 0 {
                0
            } else {
                (0xffff_ffff_ffff_ffffu64 - u) + 1
            }
        } else if isz == 8 {
            if u >= 0x8000_0000_0000_0000 {
                (0xffff_ffff_ffff_ffffu64 - u) + 1
            } else {
                u
            }
        } else if u >= p / 2 {
            p - u
        } else {
            u
        };
        proof {
            if !neg {
                if isz == 8 {
                    assert(pow256(8) / 2 == 0x8000_0000_0000_0000);
                } else {
                    assert(p == pow256(isz as nat));
                }
                assert(w == abs_pattern(uu, isz as nat));
            } else {
                assert(w == neg_pattern(uu));
            }
        }
        let piece = bytes_of_pattern(w, isz, little);
        push_bytes(&mut out, piece.as_slice(), 0, isz);
        proof {
            assert forall|i: int| 0 <= i < (k + 1) * isz implies #[trigger] out@[i] == patterns_mapped(
                g@,
                isz as nat,
                little,
                neg,
            )[i] by {
                if i < k * isz {
                    assert(out@[i] == before[i]);
                } else {
                    lemma_div_mod_step(i, k as int, isz as int);
                }
            }
        }
        k = k + 1;
    }
    proof {
        assert(out@ =~= patterns_mapped(g@, isz as nat, little, neg));
    }
    out
}

/// `256^isz` for element sizes below 8: 256, 65536 and 2^32.
proof fn lemma_pow_isz(isz: nat)
    ensures
        isz == 1 ==> pow256(isz) == 256,
        isz == 2 ==> pow256(isz) == 0x1_0000,
        isz == 4 ==> pow256(isz) == 0x1_0000_0000,
{
    reveal_with_fuel(pow256, 5);
}

/// The outcome of negating (`neg`) or taking the absolute value of every
/// element of `src` into `before`, integer elements read and written least
/// significant byte first when `little`: a refusal as [`map_refusal`]
/// describes, leaving `before` unchanged; else each element's two's-
/// complement pattern mapped as [`patterns_mapped`] describes is written
/// over the elements of `before` in C order.
pub open spec fn sign_map_outcome(
    src: BufferView,
    before: BufferView,
    after: BufferView,
    little: bool,
    neg: bool,
    r: MohuResult<()>,
) -> bool {
    if map_refused(src, before) {
        map_refusal(src, before, r) && after == before
    } else {
        write_outcome(
            before,
            after,
            patterns_mapped(gathered(src.data, src.layout), spec_itemsize(src.dtype), little, neg),
            r,
        )
    }
}

/// Negates or takes the absolute value of every element of `src` into
/// `dst`, of the same integer dtype.
fn sign_map(src: &Buffer, dst: &mut Buffer, little: bool, neg: bool) -> (r: MohuResult<()>)
    requires
        spec_is_integer(src@.dtype),
        old(dst)@.dtype == src@.dtype,
        prefixes_fit(src@.layout.shape, usize::MAX as int),
        prefixes_fit(old(dst)@.layout.shape, usize::MAX as int),
    ensures
        sign_map_outcome(src@, old(dst)@, final(dst)@, little, neg, r),
{
    let _s_isz = src.itemsize();
    let _d_isz = dst.itemsize();
    let g = map_input(src, dst)?;
    let isz = src.dtype().itemsize();
    proof {
        reveal(gathered);
        crate::strides::lemma_shape_product_nonneg(src@.layout.shape);
        vstd::arithmetic::div_mod::lemma_mod_multiples_basic(shape_product(src@.layout.shape), isz as int);
        assert(g@.len() == shape_product(src@.layout.shape) * isz);
        assert((shape_product(src@.layout.shape) * isz) % (isz as int) == 0) by (nonlinear_arith)
            requires
                isz >= 1,
                shape_product(src@.layout.shape) >= 0,
        ;
    }
    let out = map_patterns(&g, isz, little, neg);
    proof {
        assert(out@.len() == shape_product(dst@.layout.shape) * dst@.layout.itemsize);
    }
    dst.write_elements(out.as_slice())
}

/// The outcome of [`neg_copy_integers_with_byte_order`]: for `bool`
/// elements a copy ([`copy_outcome`]); for integer elements each negated,
/// wrapping around ([`sign_map_outcome`]).
pub open spec fn neg_outcome(src: BufferView, before: BufferView, after: BufferView, little: bool, r: MohuResult<()>) -> bool {
    if src.dtype == DType::Bool {
        copy_outcome(src, before, after, r)
    } else {
        sign_map_outcome(src, before, after, little, true, r)
    }
}

/// Negates every `bool` or integer element of `src` into `dst`, elements
/// read and written least significant byte first when `little`: `bool`
/// elements are copied unchanged; integers wrap around, so the least signed
/// value and unsigned values other than 0 wrap. Fails as [`neg_outcome`]
/// describes.
pub fn neg_copy_integers_with_byte_order(src: &Buffer, dst: &mut Buffer, little: bool) -> (r: MohuResult<()>)
    requires
        src@.dtype == DType::Bool || spec_is_integer(src@.dtype),
        spec_is_integer(src@.dtype) ==> old(dst)@.dtype == src@.dtype,
        prefixes_fit(src@.layout.shape, usize::MAX as int),
        prefixes_fit(old(dst)@.layout.shape, usize::MAX as int),
    ensures
        neg_outcome(src@, old(dst)@, final(dst)@, little, r),
{
    if src.dtype() == DType::Bool {
        return copy_to_contiguous(src, dst);
    }
    sign_map(src, dst, little, true)
}

/// Negates every `bool` or integer element of `src` into `dst` in the
/// host's byte order; fails as [`neg_outcome`] describes.
pub fn neg_copy_integers(src: &Buffer, dst: &mut Buffer) -> (r: MohuResult<()>)
    requires
        src@.dtype == DType::Bool || spec_is_integer(src@.dtype),
        spec_is_integer(src@.dtype) ==> old(dst)@.dtype == src@.dtype,
        prefixes_fit(src@.layout.shape, usize::MAX as int),
        prefixes_fit(old(dst)@.layout.shape, usize::MAX as int),
    ensures
        neg_outcome(src@, old(dst)@, final(dst)@, true, r) || neg_outcome(src@, old(dst)@, final(dst)@, false, r),
{
    let little = crate::compat::ByteOrder::host_is_little_endian();
    neg_copy_integers_with_byte_order(src, dst, little)
}

/// The outcome of [`abs_copy_integers_with_byte_order`]: for `bool` and
/// unsigned elements a copy ([`copy_outcome`]); for signed elements each
/// replaced by its absolute value, the least value staying itself
/// ([`sign_map_outcome`]).
pub open spec fn abs_outcome(src: BufferView, before: BufferView, after: BufferView, little: bool, r: MohuResult<()>) -> bool {
    if src.dtype == DType::Bool || spec_is_unsigned_integer(src.dtype) {
        copy_outcome(src, before, after, r)
    } else {
        sign_map_outcome(src, before, after, little, false, r)
    }
}

/// Takes the absolute value of every `bool` or integer element of `src`
/// narrower than 64 bits when signed, into `dst`, elements read and written
/// least significant byte first when `little`: `bool` and unsigned elements
/// are copied; the least signed value stays itself. Fails as
/// [`abs_outcome`] describes.
pub fn abs_copy_integers_with_byte_order(src: &Buffer, dst: &mut Buffer, little: bool) -> (r: MohuResult<()>)
    requires
        src@.dtype == DType::Bool || spec_is_unsigned_integer(src@.dtype) || src@.dtype == DType::I8 || src@.dtype
            == DType::I16 || src@.dtype == DType::I32,
        spec_is_signed_integer(src@.dtype) ==> old(dst)@.dtype == src@.dtype,
        prefixes_fit(src@.layout.shape, usize::MAX as int),
        prefixes_fit(old(dst)@.layout.shape, usize::MAX as int),
    ensures
        abs_outcome(src@, old(dst)@, final(dst)@, little, r),
{
    if src.dtype() == DType::Bool || src.dtype().is_unsigned_integer() {
        return copy_to_contiguous(src, dst);
    }
    sign_map(src, dst, little, false)
}

/// Takes the absolute value of every `bool` or integer element of `src`
/// narrower than 64 bits when signed, into `dst`, in the host's byte order;
/// fails as [`abs_outcome`] describes.
pub fn abs_copy_integers(src: &Buffer, dst: &mut Buffer) -> (r: MohuResult<()>)
    requires
        src@.dtype == DType::Bool || spec_is_unsigned_integer(src@.dtype) || src@.dtype == DType::I8 || src@.dtype
            == DType::I16 || src@.dtype == DType::I32,
        spec_is_signed_integer(src@.dtype) ==> old(dst)@.dtype == src@.dtype,
        prefixes_fit(src@.layout.shape, usize::MAX as int),
        prefixes_fit(old(dst)@.layout.shape, usize::MAX as int),
    ensures
        abs_outcome(src@, old(dst)@, final(dst)@, true, r) || abs_outcome(src@, old(dst)@, final(dst)@, false, r),
{
    let little = crate::compat::ByteOrder::host_is_little_endian();
    abs_copy_integers_with_byte_order(src, dst, little)
}


/// An integer element compares by the number it stores: the order key of
/// the bytes `b` of an element of an integer dtype lies in the dtype's
/// range and is congruent to their unsigned value modulo `2^(8 * itemsize)`
/// (the two's-complement reading), and it is never marked NaN.
pub proof fn lemma_integer_order_is_value(d: DType, b: Seq<u8>, little: bool)
    requires
        spec_is_integer(d),
        b.len() == spec_itemsize(d),
    ensures
        int_lo(d) <= elem_order(d, b, little).0 <= int_hi(d),
        (elem_order(d, b, little).0 - uint_of_bytes(b, little)) % (int_hi(d) - int_lo(d) + 1) == 0,
        !elem_order(d, b, little).1,
{
    lemma_be_value_bound(b);
    lemma_be_value_bound(byte_reversed(b));
    assert(byte_reversed(b).len() == b.len());
    assert(pow256(8) == 0x1_0000_0000_0000_0000) by {
        reveal_with_fuel(pow256, 9);
    }
    assert(pow256(4) == 0x1_0000_0000) by {
        reveal_with_fuel(pow256, 5);
    }
    assert(pow256(2) == 0x1_0000) by {
        reveal_with_fuel(pow256, 3);
    }
    assert(pow256(1) == 0x100) by {
        reveal_with_fuel(pow256, 2);
    }
    let u = uint_of_bytes(b, little) as int;
    let k = elem_order(d, b, little).0;
    let m = int_hi(d) - int_lo(d) + 1;
    assert(0 <= u < m);
    if k != u {
        assert(k == u - m);
        assert((k - u) % m == 0) by {
            vstd::arithmetic::div_mod::lemma_mod_self_0(m);
            vstd::arithmetic::div_mod::lemma_mod_sub_multiples_vanish(0, m);
        }
    } else {
        assert((k - u) % m == 0) by {
            vstd::arithmetic::div_mod::lemma_mod_self_0(m);
            vstd::arithmetic::div_mod::lemma_small_mod(0, m as nat);
        }
    }
}

/// Among the first `n` elements of an integer dtype, the position that
/// argmin (argmax, when `max`) finds holds the least (greatest) stored
/// number: every element's order key is the number it stores, in the
/// dtype's range and congruent to its bytes' unsigned value modulo
/// `2^(8 * itemsize)`, and no element's number is below (above) the one at
/// the found position, nor equal to it before that position.
pub proof fn lemma_extreme_index_integers(g: Seq<u8>, d: DType, isz: nat, n: nat, little: bool, max: bool)
    requires
        spec_is_integer(d),
        isz == spec_itemsize(d),
        n >= 1,
        n * isz <= g.len(),
    ensures
        ({
            let j = extreme_index(g, d, isz, n, little, max) as int;
            let vj = order_at(g, d, isz, j, little).0;
            &&& 0 <= j < n
            &&& forall|i: int|
                0 <= i < n ==> int_lo(d) <= (#[trigger] order_at(g, d, isz, i, little)).0 <= int_hi(d) && (order_at(
                    g,
                    d,
                    isz,
                    i,
                    little,
                ).0 - uint_of_bytes(g.subrange(i * isz, i * isz + isz), little)) % (int_hi(d) - int_lo(d) + 1) == 0
            &&& forall|i: int|
                0 <= i < n ==> (if max {
                    (#[trigger] order_at(g, d, isz, i, little)).0 <= vj
                } else {
                    vj <= order_at(g, d, isz, i, little).0
                })
            &&& forall|i: int|
                0 <= i < j ==> (if max {
                    (#[trigger] order_at(g, d, isz, i, little)).0 < vj
                } else {
                    vj < order_at(g, d, isz, i, little).0
                })
        }),
{
    assert forall|i: int| 0 <= i < n implies int_lo(d) <= (#[trigger] order_at(g, d, isz, i, little)).0 <= int_hi(d)
        && (order_at(g, d, isz, i, little).0 - uint_of_bytes(g.subrange(i * isz, i * isz + isz), little)) % (int_hi(
        d,
    ) - int_lo(d) + 1) == 0 && !order_at(g, d, isz, i, little).1 by {
        assert(i * isz + isz <= n * isz) by (nonlinear_arith)
            requires
                0 <= i < n,
        ;
        assert(0 <= i * isz) by (nonlinear_arith)
            requires
                0 <= i,
        ;
        lemma_integer_order_is_value(d, g.subrange(i * isz, i * isz + isz), little);
    }
    lemma_extreme_index(g, d, isz, n, little, max);
}

} // verus!

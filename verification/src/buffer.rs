//! Buffer flag bits, the C-ABI DLPack records, and flat-index decomposition.
use vstd::prelude::*;
use vstd::std_specs::convert::FromSpecImpl;
use vstd::slice::slice_to_vec;
use vstd::string::StringExecFns;
use crate::dlpack::{spec_code_value, DLDataType};
use crate::dtype::{spec_itemsize, spec_numpy_str, DType};
use crate::scalar::{IntScalar, RealScalar};
use crate::error::{MohuError, MohuResult};
use crate::layout::{
    c_contiguous, closed_text, custom_error, custom_ok, f_contiguous, half_open_text, is_axis_permutation, layout_of,
    permute_error, slice_count, slice_fits, slice_start, slice_step, squeeze_shape, squeeze_strides, Layout, LayoutView,
    Order, SliceArg,
};
use crate::ops::{
    all_elements_ok, bad_index_error, element_of, element_offset, nth_offset, readable, element_ok, element_truthy, element_truthy_at, first_bad_element, gather_elements, gathered,
    copy_outcome, copy_to_contiguous, extreme_outcome, first_out_of_range, locate, locate_outcome, overwrite, push_bytes, scatter_elements,
    scattered, truthy_count, held, elements_held, encoded, pattern_bytes, pattern64, read_uint, read_failure,
    decode_all, encode_all, bytes_of_pattern,
};
use crate::strides::{
    broadcast_result, broadcastable, c_index, c_stride_acc, contiguous_nbytes, f_stride_acc, in_bounds,
    lemma_c_index, lemma_c_offset, offset_fits, offset_sum, prefixes_fit, shape_product, spec_contiguous_nbytes, spec_shape_size,
    zip_len,
};
use crate::text::{decimal, push_decimal, string_of};

verus! {

// ─── BufferFlags ─────────────────────────────────────────────────────────────

/// Bit set describing the mutability and layout properties of a buffer.
#[derive(Debug, Clone, Copy, PartialEq, Eq, Hash, Structural)]
pub struct BufferFlags(u8);

impl View for BufferFlags {
    type V = u8;

    closed spec fn view(&self) -> u8 {
        self.0
    }
}

impl BufferFlags {
    /// The flag: the array can be written (not read-only, not a broadcast view).
    pub fn writeable() -> (r: BufferFlags)
        ensures
            r@ == 1,
    {
        BufferFlags(1)
    }

    /// The flag: this buffer owns (alone or shared) its backing bytes.
    pub fn owns_data() -> (r: BufferFlags)
        ensures
            r@ == 2,
    {
        BufferFlags(2)
    }

    /// The flag: the array is C-contiguous in its backing bytes.
    pub fn c_contiguous() -> (r: BufferFlags)
        ensures
            r@ == 4,
    {
        BufferFlags(4)
    }

    /// The flag: the array is Fortran-contiguous in its backing bytes.
    pub fn f_contiguous() -> (r: BufferFlags)
        ensures
            r@ == 8,
    {
        BufferFlags(8)
    }

    /// The flag: the backing memory is SIMD-aligned (at least 64 bytes).
    pub fn aligned() -> (r: BufferFlags)
        ensures
            r@ == 16,
    {
        BufferFlags(16)
    }

    /// The bits of this flag set.
    pub fn bits(self) -> (r: u8)
        ensures
            r == self@,
    {
        self.0
    }

    /// The empty flag set.
    pub fn empty() -> (r: BufferFlags)
        ensures
            r@ == 0,
    {
        BufferFlags(0)
    }

    /// Whether every flag of `other` is set in `self`.
    pub fn contains(self, other: BufferFlags) -> (r: bool)
        ensures
            r == (self@ & other@ == other@),
    {
        self.0 & other.0 == other.0
    }

    /// The union of the two flag sets.
    pub fn insert(self, other: BufferFlags) -> (r: BufferFlags)
        ensures
            r@ == self@ | other@,
    {
        BufferFlags(self.0 | other.0)
    }

    /// `self` with the flags of `other` cleared.
    pub fn remove(self, other: BufferFlags) -> (r: BufferFlags)
        ensures
            r@ == self@ & !other@,
    {
        BufferFlags(self.0 & !other.0)
    }
}

/// After inserting `b` into `a`, `a | b` contains both `a` and `b`; after
/// removing `b`, the result contains nothing of `b` and is contained in `a`;
/// every set contains the empty set and itself.
pub proof fn lemma_flag_laws(a: u8, b: u8)
    ensures
        (a | b) & b == b,
        (a | b) & a == a,
        (a & !b) & b == 0,
        a & (a & !b) == (a & !b),
        a & 0u8 == 0u8,
        a & a == a,
{
    assert((a | b) & b == b) by (bit_vector);
    assert((a | b) & a == a) by (bit_vector);
    assert((a & !b) & b == 0) by (bit_vector);
    assert(a & (a & !b) == (a & !b)) by (bit_vector);
    assert(a & 0u8 == 0u8) by (bit_vector);
    assert(a & a == a) by (bit_vector);
}

// ─── DLPack C-ABI records ────────────────────────────────────────────────────

/// The C-ABI layout of a DLPack `DLDataType`.
#[derive(Debug, Clone, Copy, PartialEq, Eq, Structural)]
pub struct RawDLDataType {
    pub code: u8,
    pub bits: u8,
    pub lanes: u16,
}

impl From<DLDataType> for RawDLDataType {
    fn from(dt: DLDataType) -> (r: RawDLDataType) {
        let (code, bits, lanes) = dt.to_raw();
        RawDLDataType { code, bits, lanes }
    }
}

impl FromSpecImpl<DLDataType> for RawDLDataType {
    open spec fn obeys_from_spec() -> bool {
        true
    }

    open spec fn from_spec(dt: DLDataType) -> RawDLDataType {
        RawDLDataType { code: spec_code_value(dt.code), bits: dt.bits, lanes: dt.lanes }
    }
}

/// The C-ABI layout of a DLPack `DLDevice`.
#[derive(Debug, Clone, Copy, PartialEq, Eq, Structural)]
pub struct RawDLDevice {
    pub device_type: i32,
    pub device_id: i32,
}

// ─── Flat positions ──────────────────────────────────────────────────────────

/// The mixed-radix digits of `flat` in `shape`, last axis fastest; the first
/// digit is taken modulo the first dimension as well.
pub fn flat_to_indices(flat: usize, shape: &[usize]) -> (r: Vec<usize>)
    requires
        forall|k: int| 0 <= k < shape@.len() ==> #[trigger] shape@[k] > 0,
    ensures
        r@ == c_index(shape@, flat as nat),
{
    let n = shape.len();
    let mut out: Vec<usize> = Vec::new();
    let mut j: usize = 0;
    while j < n
        invariant
            j <= n,
            out@.len() == j,
        decreases n - j,
    {
        out.push(0);
        j = j + 1;
    }
    let mut rem: usize = flat;
    let mut i: usize = n;
    proof {
        assert(shape@.take(n as int) =~= shape@);
        assert(c_index(shape@, flat as nat) =~= c_index(shape@.take(n as int), rem as nat) + out@.subrange(
            n as int,
            n as int,
        ));
    }
    while i > 0
        invariant
            i <= n,
            n == shape@.len(),
            out@.len() == n,
            forall|k: int| 0 <= k < n ==> #[trigger] shape@[k] > 0,
            c_index(shape@, flat as nat) == c_index(shape@.take(i as int), rem as nat) + out@.subrange(
                i as int,
                n as int,
            ),
        decreases i,
    {
        let d = shape[i - 1];
        let ghost old_out = out@;
        let ghost old_rem = rem;
        out.set(i - 1, rem % d);
        rem = rem / d;
        proof {
            let t = shape@.take(i as int);
            assert(t.drop_last() =~= shape@.take(i - 1));
            assert(t.last() == d);
            assert(c_index(t, old_rem as nat) == c_index(shape@.take(i - 1), rem as nat).push(
                (old_rem % d) as usize,
            ));
            assert(out@.subrange(i - 1, n as int) =~= seq![(old_rem % d) as usize] + old_out.subrange(
                i as int,
                n as int,
            ));
            assert(c_index(shape@, flat as nat) =~= c_index(shape@.take(i - 1), rem as nat) + out@.subrange(
                i - 1,
                n as int,
            ));
        }
        i = i - 1;
    }
    proof {
        assert(shape@.take(0) =~= Seq::<usize>::empty());
        assert(out@.subrange(0, n as int) =~= out@);
    }
    out
}


// ─── Buffer ──────────────────────────────────────────────────────────────────

/// The mathematical content of a [`Buffer`]: its backing bytes, element type,
/// layout and flag bits.
pub struct BufferView {
    pub data: Seq<u8>,
    pub dtype: DType,
    pub layout: LayoutView,
    pub flags: u8,
}

/// A typed, strided view over a store of bytes.
///
/// Every buffer owns its bytes; views (transposes, slices, broadcasts) carry
/// a copy of them, so writing through one never changes another.
pub struct Buffer {
    data: Vec<u8>,
    dtype: DType,
    layout: Layout,
    flags: BufferFlags,
}

impl View for Buffer {
    type V = BufferView;

    closed spec fn view(&self) -> BufferView {
        BufferView { data: self.data@, dtype: self.dtype, layout: self.layout@, flags: self.flags@ }
    }
}

/// The flags of a freshly allocated buffer: writeable and owning its data,
/// SIMD-aligned unless it holds no byte, and marked contiguous in each order
/// that its layout is.
pub open spec fn fresh_flags(l: LayoutView, nbytes: nat) -> u8 {
    let f0 = (0u8 | 1u8) | 2u8;
    let f1 = if nbytes > 0 { f0 | 16u8 } else { f0 };
    let f2 = if c_contiguous(l) { f1 | 4u8 } else { f1 };
    if f_contiguous(l) { f2 | 8u8 } else { f2 }
}

/// `n` copies of `p` laid end to end.
pub open spec fn repeated(p: Seq<u8>, n: nat) -> Seq<u8> {
    Seq::new(n * p.len(), |i: int| p[i % (p.len() as int)])
}

/// The bytes of the value one of each dtype, each component stored least
/// significant byte first when `little`, else most significant byte first.
#[verifier::opaque]
pub open spec fn one_bytes(d: DType, little: bool) -> Seq<u8> {
    match d {
        DType::Bool | DType::I8 | DType::U8 => seq![1u8],
        DType::I16 | DType::U16 => if little { seq![1u8, 0] } else { seq![0u8, 1] },
        DType::I32 | DType::U32 => if little { seq![1u8, 0, 0, 0] } else { seq![0u8, 0, 0, 1] },
        DType::I64 | DType::U64 => if little {
            seq![1u8, 0, 0, 0, 0, 0, 0, 0]
        } else {
            seq![0u8, 0, 0, 0, 0, 0, 0, 1]
        },
        DType::F16 => if little { seq![0x00u8, 0x3C] } else { seq![0x3Cu8, 0x00] },
        DType::BF16 => if little { seq![0x80u8, 0x3F] } else { seq![0x3Fu8, 0x80] },
        DType::F32 => if little { seq![0u8, 0, 0x80, 0x3F] } else { seq![0x3Fu8, 0x80, 0, 0] },
        DType::F64 => if little {
            seq![0u8, 0, 0, 0, 0, 0, 0xF0, 0x3F]
        } else {
            seq![0x3Fu8, 0xF0, 0, 0, 0, 0, 0, 0]
        },
        DType::C64 => if little {
            seq![0u8, 0, 0x80, 0x3F, 0, 0, 0, 0]
        } else {
            seq![0x3Fu8, 0x80, 0, 0, 0, 0, 0, 0]
        },
        DType::C128 => if little {
            seq![0u8, 0, 0, 0, 0, 0, 0xF0, 0x3F, 0, 0, 0, 0, 0, 0, 0, 0]
        } else {
            seq![0x3Fu8, 0xF0, 0, 0, 0, 0, 0, 0, 0, 0, 0, 0, 0, 0, 0, 0]
        },
    }
}

/// The message of the error raised when a fill pattern does not have the
/// element size.
pub open spec fn fill_len_text(got: nat, itemsize: nat) -> Seq<char> {
    "Buffer::full: fill_bytes.len()="@ + decimal(got) + " != dtype.itemsize()="@ + decimal(itemsize)
}

/// The message of the error raised when raw bytes do not cover the shape exactly.
pub open spec fn from_bytes_len_text(got: nat, nbytes: nat) -> Seq<char> {
    "Buffer::from_bytes: bytes.len()="@ + decimal(got) + " != nbytes="@ + decimal(nbytes)
}

/// The C-order strides of a shape.
pub open spec fn c_strides_of(shape: Seq<usize>, itemsize: usize) -> Seq<isize> {
    Seq::new(shape.len(), |i: int| c_stride_acc(shape, itemsize, i + 1))
}

/// The Fortran-order strides of a shape.
pub open spec fn f_strides_of(shape: Seq<usize>, itemsize: usize) -> Seq<isize> {
    Seq::new(shape.len(), |i: int| f_stride_acc(shape, itemsize, i))
}

/// A vector of `n` zero bytes.
pub(crate) fn zero_bytes(n: usize) -> (r: Vec<u8>)
    ensures
        r@ == Seq::new(n as nat, |i: int| 0u8),
{
    let mut v: Vec<u8> = Vec::new();
    let mut i: usize = 0;
    while i < n
        invariant
            i <= n,
            v@ == Seq::new(i as nat, |k: int| 0u8),
        decreases n - i,
    {
        v.push(0);
        proof {
            assert(v@ =~= Seq::new((i + 1) as nat, |k: int| 0u8));
        }
        i = i + 1;
    }
    v
}

/// `count` copies of `p`.
pub(crate) fn repeat_bytes(p: &[u8], count: usize) -> (r: Vec<u8>)
    requires
        count * p@.len() <= usize::MAX,
    ensures
        r@ == repeated(p@, count as nat),
{
    let w = p.len();
    let mut v: Vec<u8> = Vec::new();
    let mut k: usize = 0;
    while k < count
        invariant
            k <= count,
            w == p@.len(),
            count * w <= usize::MAX,
            v@.len() == k * w,
            forall|i: int| 0 <= i < k * w ==> #[trigger] v@[i] == p@[i % (w as int)],
        decreases count - k,
    {
        let ghost before = v@;
        let mut j: usize = 0;
        assert(k * w + w <= count * w) by (nonlinear_arith)
            requires
                k < count,
        ;
        while j < w
            invariant
                j <= w,
                w == p@.len(),
                v@.len() == k * w + j,
                before.len() == k * w,
                forall|i: int| 0 <= i < k * w ==> #[trigger] v@[i] == before[i],
                forall|i: int| 0 <= i < j ==> #[trigger] v@[k * w + i] == p@[i],
            decreases w - j,
        {
            v.push(p[j]);
            j = j + 1;
        }
        proof {
            assert((k + 1) * w == k * w + w) by (nonlinear_arith);
            assert forall|i: int| 0 <= i < (k + 1) * w implies #[trigger] v@[i] == p@[i % (w as int)] by {
                if i < k * w {
                    assert(v@[i] == before[i]);
                } else {
                    vstd::arithmetic::div_mod::lemma_fundamental_div_mod_converse(i, w as int, k as int, i - k * w);
                    assert(v@[k * w + (i - k * w)] == p@[i - k * w]);
                }
            }
        }
        k = k + 1;
    }
    proof {
        assert(v@ =~= repeated(p@, count as nat));
    }
    v
}

/// The bytes of the value one of `d`, in the host's byte order `little`.
pub(crate) fn one_bytes_vec(d: DType, little: bool) -> (r: Vec<u8>)
    ensures
        r@ == one_bytes(d, little),
{
    let v: Vec<u8> = match d {
        DType::Bool | DType::I8 | DType::U8 => vec![1u8],
        DType::I16 | DType::U16 => if little { vec![1u8, 0] } else { vec![0u8, 1] },
        DType::I32 | DType::U32 => if little { vec![1u8, 0, 0, 0] } else { vec![0u8, 0, 0, 1] },
        DType::I64 | DType::U64 => if little {
            vec![1u8, 0, 0, 0, 0, 0, 0, 0]
        } else {
            vec![0u8, 0, 0, 0, 0, 0, 0, 1]
        },
        DType::F16 => if little { vec![0x00u8, 0x3C] } else { vec![0x3Cu8, 0x00] },
        DType::BF16 => if little { vec![0x80u8, 0x3F] } else { vec![0x3Fu8, 0x80] },
        DType::F32 => if little { vec![0u8, 0, 0x80, 0x3F] } else { vec![0x3Fu8, 0x80, 0, 0] },
        DType::F64 => if little {
            vec![0u8, 0, 0, 0, 0, 0, 0xF0, 0x3F]
        } else {
            vec![0x3Fu8, 0xF0, 0, 0, 0, 0, 0, 0]
        },
        DType::C64 => if little {
            vec![0u8, 0, 0x80, 0x3F, 0, 0, 0, 0]
        } else {
            vec![0x3Fu8, 0x80, 0, 0, 0, 0, 0, 0]
        },
        DType::C128 => if little {
            vec![0u8, 0, 0, 0, 0, 0, 0xF0, 0x3F, 0, 0, 0, 0, 0, 0, 0, 0]
        } else {
            vec![0x3Fu8, 0xF0, 0, 0, 0, 0, 0, 0, 0, 0, 0, 0, 0, 0, 0, 0]
        },
    };
    proof {
        reveal(one_bytes);
        assert(v@ =~= one_bytes(d, little));
    }
    v
}

/// The value one of a dtype takes one element's bytes.
pub proof fn lemma_one_bytes_len(d: DType, little: bool)
    ensures
        one_bytes(d, little).len() == spec_itemsize(d),
{
    reveal(one_bytes);
}


/// The outcome of allocating a buffer of `d` and `shape` laid out in
/// `order`, filled with zero bytes; failures are described separately.
pub open spec fn allocated(d: DType, shape: Seq<usize>, order: Order, nbytes: nat) -> BufferView {
    let isz = spec_itemsize(d) as usize;
    let st = if order == Order::C { c_strides_of(shape, isz) } else { f_strides_of(shape, isz) };
    let l = layout_of(shape, st, 0, isz);
    BufferView { data: Seq::new(nbytes, |i: int| 0u8), dtype: d, layout: l, flags: fresh_flags(l, nbytes) }
}

/// The strides a fresh buffer of `d` and `shape` gets in `order`.
pub open spec fn order_strides(d: DType, shape: Seq<usize>, order: Order) -> Seq<isize> {
    let isz = spec_itemsize(d) as usize;
    if order == Order::C { c_strides_of(shape, isz) } else { f_strides_of(shape, isz) }
}

impl Buffer {
    #[verifier::type_invariant]
    spec fn inv(self) -> bool {
        self.layout@.itemsize == spec_itemsize(self.dtype)
    }

    /// The flags of a fresh buffer with `layout` over `nbytes` bytes.
    fn compute_flags(layout: &Layout, nbytes: usize) -> (r: BufferFlags)
        ensures
            r@ == fresh_flags(layout@, nbytes as nat),
    {
        let mut f = BufferFlags::empty().insert(BufferFlags::writeable()).insert(BufferFlags::owns_data());
        if nbytes > 0 {
            f = f.insert(BufferFlags::aligned());
        }
        if layout.is_c_contiguous() {
            f = f.insert(BufferFlags::c_contiguous());
        }
        if layout.is_f_contiguous() {
            f = f.insert(BufferFlags::f_contiguous());
        }
        f
    }

    /// Allocates a buffer of `dtype` and `shape` laid out in `order`, its
    /// bytes set to zero.
    ///
    /// Fails as `contiguous_nbytes` does when the byte count overflows, and
    /// as `Layout::new_custom` does when the strides are refused.
    pub fn allocate(dtype: DType, shape: &[usize], order: Order) -> (r: MohuResult<Buffer>)
        ensures
            spec_contiguous_nbytes(shape@, spec_itemsize(dtype) as usize) matches Err(e) ==> r == Err::<
                Buffer,
                MohuError,
            >(e),
            spec_contiguous_nbytes(shape@, spec_itemsize(dtype) as usize) matches Ok(nb) ==> {
                let st = order_strides(dtype, shape@, order);
                let isz = spec_itemsize(dtype) as usize;
                &&& r is Ok <==> custom_ok(shape@, st, isz)
                &&& r matches Ok(b) ==> b@ == allocated(dtype, shape@, order, nb as nat)
                &&& r matches Err(e) ==> custom_error(e, shape@, st, isz)
            },
    {
        let isz = dtype.itemsize();
        let nbytes = contiguous_nbytes(shape, isz)?;
        let layout = match order {
            Order::C => Layout::new_c(shape, isz)?,
            Order::F => Layout::new_f(shape, isz)?,
        };
        let data = zero_bytes(nbytes);
        let flags = Buffer::compute_flags(&layout, nbytes);
        Ok(Buffer { data, dtype, layout, flags })
    }

    /// Allocates a zero-filled C-order buffer of `dtype` and `shape`.
    pub fn zeros(dtype: DType, shape: &[usize]) -> (r: MohuResult<Buffer>)
        ensures
            spec_contiguous_nbytes(shape@, spec_itemsize(dtype) as usize) matches Err(e) ==> r == Err::<
                Buffer,
                MohuError,
            >(e),
            spec_contiguous_nbytes(shape@, spec_itemsize(dtype) as usize) matches Ok(nb) ==> {
                let st = order_strides(dtype, shape@, Order::C);
                let isz = spec_itemsize(dtype) as usize;
                &&& r is Ok <==> custom_ok(shape@, st, isz)
                &&& r matches Ok(b) ==> b@ == allocated(dtype, shape@, Order::C, nb as nat)
                &&& r matches Err(e) ==> custom_error(e, shape@, st, isz)
            },
    {
        Buffer::allocate(dtype, shape, Order::C)
    }

    /// Allocates a C-order buffer of `dtype` and `shape` with every element
    /// set to `pattern`, whose length must be the element size.
    fn filled(dtype: DType, shape: &[usize], pattern: &[u8]) -> (r: MohuResult<Buffer>)
        requires
            pattern@.len() == spec_itemsize(dtype),
        ensures
            spec_contiguous_nbytes(shape@, spec_itemsize(dtype) as usize) matches Err(e) ==> r == Err::<
                Buffer,
                MohuError,
            >(e),
            spec_contiguous_nbytes(shape@, spec_itemsize(dtype) as usize) matches Ok(nb) ==> {
                let st = order_strides(dtype, shape@, Order::C);
                let isz = spec_itemsize(dtype) as usize;
                &&& r is Ok <==> custom_ok(shape@, st, isz)
                &&& r matches Ok(b) ==> b@ == BufferView {
                    data: repeated(pattern@, shape_product(shape@) as nat),
                    ..allocated(dtype, shape@, Order::C, nb as nat)
                }
                &&& r matches Err(e) ==> custom_error(e, shape@, st, isz)
            },
    {
        let isz = dtype.itemsize();
        let nbytes = contiguous_nbytes(shape, isz)?;
        let layout = Layout::new_c(shape, isz)?;
        proof {
            assert(shape@.take(shape@.len() as int) =~= shape@);
            if shape@.len() == 0 {
                assert(shape_product(shape@) == 1);
                assert(shape@.take(0) =~= shape@);
                assert(prefixes_fit(shape@, isize::MAX as int));
            }
            crate::strides::lemma_shape_product_nonneg(shape@);
        }
        let count = match crate::strides::shape_size(shape) {
            Ok(c) => c,
            Err(e) => {
                proof {
                    assert(false);
                }
                return Err(e);
            },
        };
        proof {
            assert(count * isz <= usize::MAX);
        }
        let data = repeat_bytes(pattern, count);
        let flags = Buffer::compute_flags(&layout, nbytes);
        Ok(Buffer { data, dtype, layout, flags })
    }
}


/// A fresh C-order buffer of `d` and `shape` over `nbytes` bytes whose
/// elements all hold `pattern`.
pub open spec fn filled_view(d: DType, shape: Seq<usize>, nbytes: nat, pattern: Seq<u8>) -> BufferView {
    BufferView { data: repeated(pattern, shape_product(shape) as nat), ..allocated(d, shape, Order::C, nbytes) }
}

impl Buffer {
    /// Allocates a C-order buffer of `dtype` and `shape` with every element
    /// one, stored in byte order `little` (least significant byte first).
    pub fn ones_with_byte_order(dtype: DType, shape: &[usize], little: bool) -> (r: MohuResult<Buffer>)
        ensures
            spec_contiguous_nbytes(shape@, spec_itemsize(dtype) as usize) matches Err(e) ==> r == Err::<
                Buffer,
                MohuError,
            >(e),
            spec_contiguous_nbytes(shape@, spec_itemsize(dtype) as usize) matches Ok(nb) ==> {
                let st = order_strides(dtype, shape@, Order::C);
                let isz = spec_itemsize(dtype) as usize;
                &&& r is Ok <==> custom_ok(shape@, st, isz)
                &&& r matches Ok(b) ==> b@ == filled_view(dtype, shape@, nb as nat, one_bytes(dtype, little))
                &&& r matches Err(e) ==> custom_error(e, shape@, st, isz)
            },
    {
        let one = one_bytes_vec(dtype, little);
        proof {
            lemma_one_bytes_len(dtype, little);
        }
        Buffer::filled(dtype, shape, one.as_slice())
    }

    /// Allocates a C-order buffer of `dtype` and `shape` with every element
    /// one, in the host's byte order.
    pub fn ones(dtype: DType, shape: &[usize]) -> (r: MohuResult<Buffer>)
        ensures
            spec_contiguous_nbytes(shape@, spec_itemsize(dtype) as usize) matches Err(e) ==> r == Err::<
                Buffer,
                MohuError,
            >(e),
            spec_contiguous_nbytes(shape@, spec_itemsize(dtype) as usize) matches Ok(nb) ==> {
                let st = order_strides(dtype, shape@, Order::C);
                let isz = spec_itemsize(dtype) as usize;
                &&& r is Ok <==> custom_ok(shape@, st, isz)
                &&& r matches Ok(b) ==> (b@ == filled_view(dtype, shape@, nb as nat, one_bytes(dtype, true))
                    || b@ == filled_view(dtype, shape@, nb as nat, one_bytes(dtype, false)))
                &&& r matches Err(e) ==> custom_error(e, shape@, st, isz)
            },
    {
        let little = crate::compat::ByteOrder::host_is_little_endian();
        Buffer::ones_with_byte_order(dtype, shape, little)
    }

    /// Allocates a C-order buffer of `dtype` and `shape` with every element
    /// set to the bytes `fill_bytes`.
    ///
    /// Fails with `Internal` when `fill_bytes` is not exactly one element
    /// long, else as [`Buffer::allocate`] does.
    pub fn full(dtype: DType, shape: &[usize], fill_bytes: &[u8]) -> (r: MohuResult<Buffer>)
        ensures
            fill_bytes@.len() != spec_itemsize(dtype) ==> (r matches Err(MohuError::Internal(m)) && m@
                == fill_len_text(fill_bytes@.len(), spec_itemsize(dtype))),
            fill_bytes@.len() == spec_itemsize(dtype) ==> {
                &&& spec_contiguous_nbytes(shape@, spec_itemsize(dtype) as usize) matches Err(e) ==> r == Err::<
                    Buffer,
                    MohuError,
                >(e)
                &&& spec_contiguous_nbytes(shape@, spec_itemsize(dtype) as usize) matches Ok(nb) ==> {
                    let st = order_strides(dtype, shape@, Order::C);
                    let isz = spec_itemsize(dtype) as usize;
                    &&& r is Ok <==> custom_ok(shape@, st, isz)
                    &&& r matches Ok(b) ==> b@ == filled_view(dtype, shape@, nb as nat, fill_bytes@)
                    &&& r matches Err(e) ==> custom_error(e, shape@, st, isz)
                }
            },
    {
        let isz = dtype.itemsize();
        if fill_bytes.len() != isz {
            let mut m = string_of("Buffer::full: fill_bytes.len()=");
            push_decimal(&mut m, fill_bytes.len() as u64);
            m.append(" != dtype.itemsize()=");
            push_decimal(&mut m, isz as u64);
            return Err(MohuError::Internal(m));
        }
        Buffer::filled(dtype, shape, fill_bytes)
    }

    /// Wraps the bytes of a C-order array of `dtype` and `shape`.
    ///
    /// Fails as `contiguous_nbytes` does when the byte count overflows, with
    /// `Internal` when `bytes` does not have exactly that many bytes, and as
    /// `Layout::new_custom` does when the strides are refused.
    pub fn from_bytes(dtype: DType, shape: &[usize], bytes: Vec<u8>) -> (r: MohuResult<Buffer>)
        ensures
            spec_contiguous_nbytes(shape@, spec_itemsize(dtype) as usize) matches Err(e) ==> r == Err::<
                Buffer,
                MohuError,
            >(e),
            spec_contiguous_nbytes(shape@, spec_itemsize(dtype) as usize) matches Ok(nb) ==> {
                let st = order_strides(dtype, shape@, Order::C);
                let isz = spec_itemsize(dtype) as usize;
                &&& bytes@.len() != nb ==> (r matches Err(MohuError::Internal(m)) && m@ == from_bytes_len_text(
                    bytes@.len(),
                    nb as nat,
                ))
                &&& bytes@.len() == nb ==> {
                    &&& r is Ok <==> custom_ok(shape@, st, isz)
                    &&& r matches Ok(b) ==> b@ == BufferView {
                        data: bytes@,
                        ..allocated(dtype, shape@, Order::C, nb as nat)
                    }
                    &&& r matches Err(e) ==> custom_error(e, shape@, st, isz)
                }
            },
    {
        let isz = dtype.itemsize();
        let nbytes = contiguous_nbytes(shape, isz)?;
        if bytes.len() != nbytes {
            let mut m = string_of("Buffer::from_bytes: bytes.len()=");
            push_decimal(&mut m, bytes.len() as u64);
            m.append(" != nbytes=");
            push_decimal(&mut m, nbytes as u64);
            return Err(MohuError::Internal(m));
        }
        let layout = Layout::new_c(shape, isz)?;
        let flags = Buffer::compute_flags(&layout, nbytes);
        Ok(Buffer { data: bytes, dtype, layout, flags })
    }

    // ─── Properties ──────────────────────────────────────────────────────────

    /// The element type.
    pub fn dtype(&self) -> (r: DType)
        ensures
            r == self@.dtype,
    {
        self.dtype
    }

    /// The layout descriptor.
    pub fn layout(&self) -> (r: &Layout)
        ensures
            r@ == self@.layout,
    {
        &self.layout
    }

    /// The shape.
    pub fn shape(&self) -> (r: &[usize])
        ensures
            r@ == self@.layout.shape,
    {
        self.layout.shape()
    }

    /// The byte strides.
    pub fn strides(&self) -> (r: &[isize])
        ensures
            r@ == self@.layout.strides,
            r@.len() == self@.layout.shape.len(),
    {
        self.layout.strides()
    }

    /// The number of dimensions.
    pub fn ndim(&self) -> (r: usize)
        ensures
            r == self@.layout.shape.len(),
    {
        self.layout.ndim()
    }

    /// The number of elements.
    pub fn len(&self) -> (r: usize)
        requires
            prefixes_fit(self@.layout.shape, usize::MAX as int),
        ensures
            r == shape_product(self@.layout.shape),
    {
        self.layout.size()
    }

    /// The number of bytes of the elements (`len * itemsize`).
    pub fn nbytes(&self) -> (r: usize)
        requires
            prefixes_fit(self@.layout.shape, usize::MAX as int),
            shape_product(self@.layout.shape) * self@.layout.itemsize <= usize::MAX,
        ensures
            r == shape_product(self@.layout.shape) * self@.layout.itemsize,
    {
        self.layout.nbytes()
    }

    /// The size of one element in bytes.
    pub fn itemsize(&self) -> (r: usize)
        ensures
            r == spec_itemsize(self@.dtype),
            r == self@.layout.itemsize,
    {
        proof {
            use_type_invariant(self);
        }
        self.dtype.itemsize()
    }

    /// The byte offset of element `[0, …, 0]` in the backing bytes.
    pub fn offset(&self) -> (r: usize)
        ensures
            r == self@.layout.offset,
    {
        self.layout.offset()
    }

    /// The flag bits.
    pub fn flags(&self) -> (r: BufferFlags)
        ensures
            r@ == self@.flags,
    {
        self.flags
    }

    /// Whether some dimension is zero.
    pub fn is_empty(&self) -> (r: bool)
        ensures
            r == self@.layout.shape.contains(0),
    {
        self.layout.is_empty()
    }

    /// Whether the buffer may be written.
    pub fn is_writeable(&self) -> (r: bool)
        ensures
            r == (self@.flags & 1u8 == 1u8),
    {
        self.flags.contains(BufferFlags::writeable())
    }

    /// Whether the layout is C-contiguous.
    pub fn is_c_contiguous(&self) -> (r: bool)
        ensures
            r == c_contiguous(self@.layout),
    {
        self.layout.is_c_contiguous()
    }

    /// Whether the layout is Fortran-contiguous.
    pub fn is_f_contiguous(&self) -> (r: bool)
        ensures
            r == f_contiguous(self@.layout),
    {
        self.layout.is_f_contiguous()
    }

    /// Whether the layout is contiguous in either order.
    pub fn is_contiguous(&self) -> (r: bool)
        ensures
            r == (c_contiguous(self@.layout) || f_contiguous(self@.layout)),
    {
        self.layout.is_contiguous()
    }

    /// Whether the backing bytes are SIMD-aligned.
    pub fn is_aligned(&self) -> (r: bool)
        ensures
            r == (self@.flags & 16u8 == 16u8),
    {
        self.flags.contains(BufferFlags::aligned())
    }
}


/// Some of the first `m` elements of contiguous bytes `c` of `d` is non-zero.
pub open spec fn some_truthy(c: Seq<u8>, d: DType, little: bool, m: nat) -> bool {
    exists|k: nat| k < m && #[trigger] element_truthy(d, element_of(c, spec_itemsize(d), k), little)
}

/// All of the first `m` elements of contiguous bytes `c` of `d` are non-zero.
pub open spec fn every_truthy(c: Seq<u8>, d: DType, little: bool, m: nat) -> bool {
    forall|k: nat| k < m ==> #[trigger] element_truthy(d, element_of(c, spec_itemsize(d), k), little)
}

/// The elements of a buffer in C order, read as contiguous bytes; fails as
/// [`gather_elements`] describes.
pub open spec fn elements_result(b: BufferView, r: MohuResult<Seq<u8>>) -> bool {
    &&& spec_contiguous_nbytes(b.layout.shape, b.layout.itemsize) matches Err(e) ==> r == Err::<Seq<u8>, MohuError>(e)
    &&& spec_contiguous_nbytes(b.layout.shape, b.layout.itemsize) is Ok ==> {
        &&& all_elements_ok(b.layout, b.data.len()) ==> r == Ok::<Seq<u8>, MohuError>(gathered(b.data, b.layout))
        &&& !all_elements_ok(b.layout, b.data.len()) ==> (r matches Err(e) && first_bad_element(
            e,
            b.layout,
            b.data.len(),
        ))
    }
}

impl Buffer {
    /// The bytes of every element in C order.
    ///
    /// Fails as [`gather_elements`] does: when the byte count overflows, or at the
    /// first element that does not lie within the backing bytes.
    pub fn to_bytes(&self) -> (r: MohuResult<Vec<u8>>)
        ensures
            elements_result(
                self@,
                match r {
                    Ok(v) => Ok(v@),
                    Err(e) => Err(e),
                },
            ),
    {
        gather_elements(self.data.as_slice(), &self.layout)
    }

    /// Gathers the elements and counts them.
    fn elements(&self) -> (r: MohuResult<(Vec<u8>, usize)>)
        ensures
            elements_result(
                self@,
                match r {
                    Ok(p) => Ok(p.0@),
                    Err(e) => Err(e),
                },
            ),
            r matches Ok(p) ==> p.1 == shape_product(self@.layout.shape) && p.0@.len() == p.1
                * spec_itemsize(self@.dtype),
    {
        proof {
            use_type_invariant(self);
        }
        let c = gather_elements(self.data.as_slice(), &self.layout)?;
        proof {
            let s = self@.layout.shape;
            assert(s.take(s.len() as int) =~= s);
            assert(shape_product(s.take(s.len() as int)) <= isize::MAX) by {
                if s.len() == 0 {
                    assert(s.take(0) =~= s);
                }
            }
            if s.len() == 0 {
                assert(s.take(0) =~= s);
            }
            assert(prefixes_fit(s, usize::MAX as int));
            reveal(gathered);
        }
        let n = self.layout.size();
        Ok((c, n))
    }

    /// The number of non-zero elements, floats read in byte order `little`.
    pub fn count_nonzero_with_byte_order(&self, little: bool) -> (r: MohuResult<usize>)
        ensures
            elements_result(
                self@,
                match r {
                    Ok(_) => Ok(gathered(self@.data, self@.layout)),
                    Err(e) => Err(e),
                },
            ),
            r matches Ok(n) ==> n == truthy_count(
                gathered(self@.data, self@.layout),
                self@.dtype,
                little,
                shape_product(self@.layout.shape) as nat,
            ),
    {
        let (c, n) = self.elements()?;
        let d = self.dtype;
        let isz = d.itemsize();
        let clen = c.len();
        let mut count: usize = 0;
        let mut k: usize = 0;
        while k < n
            invariant
                k <= n,
                c@.len() == n * isz,
                clen == c@.len(),
                isz == spec_itemsize(d),
                d == self@.dtype,
                n == shape_product(self@.layout.shape),
                c@ == gathered(self@.data, self@.layout),
                elements_result(self@, Ok::<Seq<u8>, MohuError>(gathered(self@.data, self@.layout))),
                count <= k,
                count == truthy_count(c@, d, little, k as nat),
            decreases n - k,
        {
            assert(k * isz + isz <= n * isz) by (nonlinear_arith)
                requires
                    k < n,
            ;
            let at = k * isz;
            if element_truthy_at(c.as_slice(), at, d, little) {
                count = count + 1;
            }
            k = k + 1;
        }
        Ok(count)
    }

    /// The number of non-zero elements, floats read in the host's byte order.
    pub fn count_nonzero(&self) -> (r: MohuResult<usize>)
        ensures
            elements_result(
                self@,
                match r {
                    Ok(_) => Ok(gathered(self@.data, self@.layout)),
                    Err(e) => Err(e),
                },
            ),
            r matches Ok(n) ==> (n == truthy_count(
                gathered(self@.data, self@.layout),
                self@.dtype,
                true,
                shape_product(self@.layout.shape) as nat,
            ) || n == truthy_count(
                gathered(self@.data, self@.layout),
                self@.dtype,
                false,
                shape_product(self@.layout.shape) as nat,
            )),
    {
        let little = crate::compat::ByteOrder::host_is_little_endian();
        self.count_nonzero_with_byte_order(little)
    }

    /// Whether some element is non-zero, floats read in byte order `little`.
    pub fn any_with_byte_order(&self, little: bool) -> (r: MohuResult<bool>)
        ensures
            elements_result(
                self@,
                match r {
                    Ok(_) => Ok(gathered(self@.data, self@.layout)),
                    Err(e) => Err(e),
                },
            ),
            r matches Ok(b) ==> b == some_truthy(
                gathered(self@.data, self@.layout),
                self@.dtype,
                little,
                shape_product(self@.layout.shape) as nat,
            ),
    {
        let (c, n) = self.elements()?;
        let d = self.dtype;
        let isz = d.itemsize();
        let clen = c.len();
        let mut k: usize = 0;
        while k < n
            invariant
                k <= n,
                c@.len() == n * isz,
                clen == c@.len(),
                isz == spec_itemsize(d),
                d == self@.dtype,
                n == shape_product(self@.layout.shape),
                c@ == gathered(self@.data, self@.layout),
                elements_result(self@, Ok::<Seq<u8>, MohuError>(gathered(self@.data, self@.layout))),
                !some_truthy(c@, d, little, k as nat),
            decreases n - k,
        {
            assert(k * isz + isz <= n * isz) by (nonlinear_arith)
                requires
                    k < n,
            ;
            let at = k * isz;
            if element_truthy_at(c.as_slice(), at, d, little) {
                proof {
                    assert(element_truthy(d, element_of(c@, spec_itemsize(d), k as nat), little));
                }
                return Ok(true);
            }
            proof {
                assert forall|q: nat| q < k + 1 implies !#[trigger] element_truthy(
                    d,
                    element_of(c@, spec_itemsize(d), q),
                    little,
                ) by {
                    if q < k {
                        assert(!some_truthy(c@, d, little, k as nat));
                    }
                }
            }
            k = k + 1;
        }
        Ok(false)
    }

    /// Whether some element is non-zero, floats read in the host's byte order.
    pub fn any(&self) -> (r: MohuResult<bool>)
        ensures
            elements_result(
                self@,
                match r {
                    Ok(_) => Ok(gathered(self@.data, self@.layout)),
                    Err(e) => Err(e),
                },
            ),
            r matches Ok(b) ==> (b == some_truthy(
                gathered(self@.data, self@.layout),
                self@.dtype,
                true,
                shape_product(self@.layout.shape) as nat,
            ) || b == some_truthy(
                gathered(self@.data, self@.layout),
                self@.dtype,
                false,
                shape_product(self@.layout.shape) as nat,
            )),
    {
        let little = crate::compat::ByteOrder::host_is_little_endian();
        self.any_with_byte_order(little)
    }

    /// Whether every element is non-zero, floats read in byte order `little`.
    pub fn all_with_byte_order(&self, little: bool) -> (r: MohuResult<bool>)
        ensures
            elements_result(
                self@,
                match r {
                    Ok(_) => Ok(gathered(self@.data, self@.layout)),
                    Err(e) => Err(e),
                },
            ),
            r matches Ok(b) ==> b == every_truthy(
                gathered(self@.data, self@.layout),
                self@.dtype,
                little,
                shape_product(self@.layout.shape) as nat,
            ),
    {
        let (c, n) = self.elements()?;
        let d = self.dtype;
        let isz = d.itemsize();
        let clen = c.len();
        let mut k: usize = 0;
        while k < n
            invariant
                k <= n,
                c@.len() == n * isz,
                clen == c@.len(),
                isz == spec_itemsize(d),
                d == self@.dtype,
                n == shape_product(self@.layout.shape),
                c@ == gathered(self@.data, self@.layout),
                elements_result(self@, Ok::<Seq<u8>, MohuError>(gathered(self@.data, self@.layout))),
                every_truthy(c@, d, little, k as nat),
            decreases n - k,
        {
            assert(k * isz + isz <= n * isz) by (nonlinear_arith)
                requires
                    k < n,
            ;
            let at = k * isz;
            if !element_truthy_at(c.as_slice(), at, d, little) {
                proof {
                    assert(!element_truthy(d, element_of(c@, spec_itemsize(d), k as nat), little));
                }
                return Ok(false);
            }
            proof {
                assert forall|q: nat| q < k + 1 implies #[trigger] element_truthy(
                    d,
                    element_of(c@, spec_itemsize(d), q),
                    little,
                ) by {
                    if q < k {
                        assert(every_truthy(c@, d, little, k as nat));
                    }
                }
            }
            k = k + 1;
        }
        Ok(true)
    }

    /// Whether every element is non-zero, floats read in the host's byte order.
    pub fn all(&self) -> (r: MohuResult<bool>)
        ensures
            elements_result(
                self@,
                match r {
                    Ok(_) => Ok(gathered(self@.data, self@.layout)),
                    Err(e) => Err(e),
                },
            ),
            r matches Ok(b) ==> (b == every_truthy(
                gathered(self@.data, self@.layout),
                self@.dtype,
                true,
                shape_product(self@.layout.shape) as nat,
            ) || b == every_truthy(
                gathered(self@.data, self@.layout),
                self@.dtype,
                false,
                shape_product(self@.layout.shape) as nat,
            )),
    {
        let little = crate::compat::ByteOrder::host_is_little_endian();
        self.all_with_byte_order(little)
    }
}


/// The message of the error raised when a written value is not one element long.
pub open spec fn set_len_text(got: nat, itemsize: nat) -> Seq<char> {
    "Buffer::set_bytes: value.len()="@ + decimal(got) + " != itemsize="@ + decimal(itemsize)
}

/// A view of `b` with layout `l` and flags `f` over the same bytes.
pub open spec fn with_layout(b: BufferView, l: LayoutView, f: u8) -> BufferView {
    BufferView { data: b.data, dtype: b.dtype, layout: l, flags: f }
}

/// The flags of a derived view: not writeable, and no longer marked contiguous in C order.
pub open spec fn view_flags(f: u8) -> u8 {
    (f & !1u8) & !4u8
}

/// The flags of a sliced view: not writeable, and marked contiguous in neither order.
pub open spec fn slice_flags(f: u8) -> u8 {
    ((f & !1u8) & !4u8) & !8u8
}

impl Buffer {
    /// Copies the elements into a fresh writeable C-order buffer.
    ///
    /// Fails as `contiguous_nbytes` does when the byte count overflows, as
    /// `Layout::new_custom` does when the C-order strides are refused, and
    /// at the first element that does not lie within the backing bytes.
    pub fn to_contiguous(&self) -> (r: MohuResult<Buffer>)
        ensures
            spec_contiguous_nbytes(self@.layout.shape, self@.layout.itemsize) matches Err(e) ==> r == Err::<
                Buffer,
                MohuError,
            >(e),
            spec_contiguous_nbytes(self@.layout.shape, self@.layout.itemsize) matches Ok(nb) ==> {
                let sh = self@.layout.shape;
                let isz = self@.layout.itemsize;
                let st = c_strides_of(sh, isz);
                &&& !custom_ok(sh, st, isz) ==> (r matches Err(e) && custom_error(e, sh, st, isz))
                &&& custom_ok(sh, st, isz) && all_elements_ok(self@.layout, self@.data.len()) ==> (r matches Ok(
                    b,
                ) && b@ == BufferView {
                    data: gathered(self@.data, self@.layout),
                    ..allocated(self@.dtype, sh, Order::C, nb as nat)
                })
                &&& custom_ok(sh, st, isz) && !all_elements_ok(self@.layout, self@.data.len()) ==> (r matches Err(
                    e,
                ) && first_bad_element(e, self@.layout, self@.data.len()))
            },
    {
        proof {
            use_type_invariant(self);
        }
        let isz = self.dtype.itemsize();
        let nbytes = contiguous_nbytes(self.layout.shape(), isz)?;
        let layout = Layout::new_c(self.layout.shape(), isz)?;
        let data = gather_elements(self.data.as_slice(), &self.layout)?;
        let flags = Buffer::compute_flags(&layout, nbytes);
        Ok(Buffer { data, dtype: self.dtype, layout, flags })
    }

    /// The bytes of the element at `indices`.
    ///
    /// Fails with `TooManyIndices`, `IndexOutOfBounds`, `OffsetOverflow` or
    /// `BufferTooSmall` as [`locate_outcome`] describes.
    pub fn get_bytes(&self, indices: &[usize]) -> (r: MohuResult<Vec<u8>>)
        ensures
            r matches Err(e) ==> locate_outcome(self@.layout, indices@, self@.data.len(), Err(e)),
            r matches Ok(v) ==> locate_outcome(
                self@.layout,
                indices@,
                self@.data.len(),
                Ok(element_offset(self@.layout, indices@) as usize),
            ) && v@ == self@.data.subrange(
                element_offset(self@.layout, indices@),
                element_offset(self@.layout, indices@) + self@.layout.itemsize,
            ),
    {
        let off = locate(&self.layout, indices, self.data.len())?;
        proof {
            reveal(element_ok);
        }
        let mut out: Vec<u8> = Vec::new();
        push_bytes(&mut out, self.data.as_slice(), off, self.layout.itemsize());
        Ok(out)
    }
}


impl Buffer {
    /// Writes `value`, the bytes of one element, at `indices`.
    ///
    /// Fails with `Internal` when `value` is not one element long, with
    /// `ReadOnly` when the buffer is not writeable, and as
    /// [`locate_outcome`] describes for the position.
    pub fn set_bytes(&mut self, indices: &[usize], value: &[u8]) -> (r: MohuResult<()>)
        ensures
            value@.len() != old(self)@.layout.itemsize ==> (r matches Err(MohuError::Internal(m)) && m@
                == set_len_text(value@.len(), old(self)@.layout.itemsize as nat)),
            value@.len() == old(self)@.layout.itemsize && old(self)@.flags & 1u8 != 1u8 ==> r == Err::<(), MohuError>(
                MohuError::ReadOnly,
            ),
            value@.len() == old(self)@.layout.itemsize && old(self)@.flags & 1u8 == 1u8 ==> {
                &&& r matches Err(e) ==> locate_outcome(old(self)@.layout, indices@, old(self)@.data.len(), Err(e))
                &&& r is Ok ==> locate_outcome(
                    old(self)@.layout,
                    indices@,
                    old(self)@.data.len(),
                    Ok(element_offset(old(self)@.layout, indices@) as usize),
                )
            },
            r is Ok ==> final(self)@ == (BufferView {
                data: overwrite(old(self)@.data, element_offset(old(self)@.layout, indices@), value@),
                ..old(self)@
            }),
            r is Err ==> final(self)@ == old(self)@,
    {
        let isz = self.itemsize();
        if value.len() != isz {
            let mut m = string_of("Buffer::set_bytes: value.len()=");
            push_decimal(&mut m, value.len() as u64);
            m.append(" != itemsize=");
            push_decimal(&mut m, isz as u64);
            return Err(MohuError::Internal(m));
        }
        if !self.is_writeable() {
            return Err(MohuError::ReadOnly);
        }
        let off = locate(&self.layout, indices, self.data.len())?;
        proof {
            reveal(element_ok);
        }
        let ghost d0 = self.data@;
        let mut data: Vec<u8> = Vec::new();
        std::mem::swap(&mut data, &mut self.data);
        let dlen = data.len();
        let mut j: usize = 0;
        while j < isz
            invariant
                j <= isz,
                dlen == data@.len(),
                isz == value@.len(),
                off + isz <= data@.len(),
                data@.len() == d0.len(),
                forall|i: int| 0 <= i < off ==> #[trigger] data@[i] == d0[i],
                forall|i: int| off + isz <= i < d0.len() ==> #[trigger] data@[i] == d0[i],
                forall|i: int| off <= i < off + j ==> #[trigger] data@[i] == value@[i - off],
                forall|i: int| off + j <= i < off + isz ==> #[trigger] data@[i] == d0[i],
            decreases isz - j,
        {
            data.set(off + j, value[j]);
            j = j + 1;
        }
        proof {
            assert(data@ =~= overwrite(d0, off as int, value@));
        }
        self.data = data;
        Ok(())
    }

    // ─── Views ───────────────────────────────────────────────────────────────

    /// The transposed view: axis order reversed, not writeable.
    pub fn transpose(&self) -> (r: Buffer)
        ensures
            r@ == with_layout(
                self@,
                layout_of(
                    self@.layout.shape.reverse(),
                    self@.layout.strides.reverse(),
                    self@.layout.offset,
                    self@.layout.itemsize,
                ),
                view_flags(self@.flags),
            ),
    {
        proof {
            use_type_invariant(self);
        }
        Buffer {
            data: slice_to_vec(self.data.as_slice()),
            dtype: self.dtype,
            layout: self.layout.transpose(),
            flags: self.flags.remove(BufferFlags::writeable()).remove(BufferFlags::c_contiguous()),
        }
    }

    /// The view with axis `i` taken from axis `axes[i]`, not writeable.
    ///
    /// Fails as `Layout::permute` does.
    pub fn permute(&self, axes: &[usize]) -> (r: MohuResult<Buffer>)
        ensures
            r is Ok <==> is_axis_permutation(axes@, self@.layout.shape.len()),
            r matches Ok(b) ==> b@ == with_layout(
                self@,
                layout_of(
                    Seq::new(axes@.len(), |i: int| self@.layout.shape[axes@[i] as int]),
                    Seq::new(axes@.len(), |i: int| self@.layout.strides[axes@[i] as int]),
                    self@.layout.offset,
                    self@.layout.itemsize,
                ),
                view_flags(self@.flags),
            ),
            r matches Err(e) ==> permute_error(e, axes@, self@.layout.shape.len()),
    {
        proof {
            use_type_invariant(self);
        }
        let layout = self.layout.permute(axes)?;
        Ok(Buffer {
            data: slice_to_vec(self.data.as_slice()),
            dtype: self.dtype,
            layout,
            flags: self.flags.remove(BufferFlags::writeable()).remove(BufferFlags::c_contiguous()),
        })
    }

    /// A C-order view of `new_shape` over the same elements, with fresh
    /// flags.
    ///
    /// Fails as `Layout::reshape` does: `NonContiguous` unless the layout is
    /// C-contiguous, else `ReshapeIncompatible` when the element counts differ.
    pub fn reshape(&self, new_shape: &[usize]) -> (r: MohuResult<Buffer>)
        requires
            prefixes_fit(self@.layout.shape, usize::MAX as int),
            prefixes_fit(new_shape@, usize::MAX as int),
        ensures
            !c_contiguous(self@.layout) ==> r == Err::<Buffer, MohuError>(MohuError::NonContiguous),
            c_contiguous(self@.layout) && shape_product(self@.layout.shape) != shape_product(new_shape@) ==> (r matches Err(
                e,
            ) && e matches MohuError::ReshapeIncompatible { src_len, dst_shape, dst_len } && src_len
                == shape_product(self@.layout.shape) && dst_shape@ == new_shape@ && dst_len == shape_product(
                new_shape@,
            )),
            c_contiguous(self@.layout) && shape_product(self@.layout.shape) == shape_product(new_shape@) ==> ({
                let l = layout_of(
                    new_shape@,
                    c_strides_of(new_shape@, self@.layout.itemsize),
                    self@.layout.offset,
                    self@.layout.itemsize,
                );
                r matches Ok(b) && b@ == with_layout(self@, l, fresh_flags(l, self@.data.len()))
            }),
    {
        proof {
            use_type_invariant(self);
        }
        let layout = self.layout.reshape(new_shape)?;
        let flags = Buffer::compute_flags(&layout, self.data.len());
        Ok(Buffer { data: slice_to_vec(self.data.as_slice()), dtype: self.dtype, layout, flags })
    }

    /// Inserts an axis of size 1 at `axis`; the flags are kept.
    ///
    /// Fails with `AxisOutOfRange` when `axis > ndim`.
    pub fn expand_dims(&self, axis: usize) -> (r: MohuResult<Buffer>)
        ensures
            axis <= self@.layout.shape.len() ==> (r matches Ok(b) && b@ == with_layout(
                self@,
                layout_of(
                    self@.layout.shape.insert(axis as int, 1),
                    self@.layout.strides.insert(axis as int, self@.layout.itemsize as isize),
                    self@.layout.offset,
                    self@.layout.itemsize,
                ),
                self@.flags,
            )),
            axis > self@.layout.shape.len() ==> (r matches Err(e) && e matches MohuError::AxisOutOfRange {
                axis: a,
                ndim,
                valid,
            } && a == axis as i64 && ndim == self@.layout.shape.len() && valid@ == closed_text(ndim as nat)),
    {
        proof {
            use_type_invariant(self);
        }
        let layout = self.layout.expand_dims(axis)?;
        Ok(Buffer { data: slice_to_vec(self.data.as_slice()), dtype: self.dtype, layout, flags: self.flags })
    }

    /// Removes every axis of size 1; the flags are kept.
    pub fn squeeze(&self) -> (r: Buffer)
        ensures
            r@ == with_layout(
                self@,
                layout_of(
                    squeeze_shape(self@.layout.shape, self@.layout.shape.len() as int),
                    squeeze_strides(self@.layout.shape, self@.layout.strides, self@.layout.shape.len() as int),
                    self@.layout.offset,
                    self@.layout.itemsize,
                ),
                self@.flags,
            ),
    {
        proof {
            use_type_invariant(self);
        }
        Buffer {
            data: slice_to_vec(self.data.as_slice()),
            dtype: self.dtype,
            layout: self.layout.squeeze(),
            flags: self.flags,
        }
    }

    /// The view broadcast to `new_shape`, not writeable.
    ///
    /// Fails with `BroadcastError` when the shapes are incompatible.
    pub fn broadcast_to(&self, new_shape: &[usize]) -> (r: MohuResult<Buffer>)
        ensures
            r is Ok <==> broadcastable(self@.layout.shape, self@.layout.shape.len() as int, new_shape@),
            r matches Ok(b) ==> b@ == with_layout(
                self@,
                layout_of(
                    new_shape@,
                    broadcast_result(
                        self@.layout.shape,
                        self@.layout.strides,
                        self@.layout.shape.len() as int,
                        new_shape@,
                    ),
                    self@.layout.offset,
                    self@.layout.itemsize,
                ),
                self@.flags & !1u8,
            ),
            r matches Err(e) ==> (e matches MohuError::BroadcastError { lhs, rhs } && lhs@ == self@.layout.shape
                && rhs@ == new_shape@),
    {
        proof {
            use_type_invariant(self);
        }
        let layout = self.layout.broadcast_to(new_shape)?;
        Ok(Buffer {
            data: slice_to_vec(self.data.as_slice()),
            dtype: self.dtype,
            layout,
            flags: self.flags.remove(BufferFlags::writeable()),
        })
    }

    /// The view of `arg` applied to axis `axis`, not writeable and marked
    /// contiguous in neither order.
    ///
    /// Fails with `AxisOutOfRange` when `axis >= ndim` and with
    /// `ZeroSliceStep` for a zero step.
    pub fn slice_axis(&self, axis: usize, arg: SliceArg) -> (r: MohuResult<Buffer>)
        requires
            axis < self@.layout.shape.len() ==> self@.layout.shape[axis as int] <= i64::MAX,
            arg.step != Some(i64::MIN),
            axis < self@.layout.shape.len() && slice_step(arg) != 0 ==> slice_fits(
                self@.layout,
                axis as int,
                slice_start(arg, self@.layout.shape[axis as int]),
                slice_step(arg) as isize,
            ),
        ensures
            axis >= self@.layout.shape.len() ==> (r matches Err(e) && e matches MohuError::AxisOutOfRange {
                axis: a,
                ndim,
                valid,
            } && a == axis as i64 && ndim == self@.layout.shape.len() && valid@ == half_open_text(ndim as nat)),
            axis < self@.layout.shape.len() && slice_step(arg) == 0 ==> r == Err::<Buffer, MohuError>(
                MohuError::ZeroSliceStep,
            ),
            axis < self@.layout.shape.len() && slice_step(arg) != 0 ==> ({
                let l = self@.layout;
                let dim = l.shape[axis as int];
                let start = slice_start(arg, dim);
                let step = slice_step(arg) as isize;
                let stride = l.strides[axis as int];
                r matches Ok(b) && b@ == with_layout(
                    self@,
                    layout_of(
                        l.shape.update(axis as int, slice_count(arg, dim) as usize),
                        l.strides.update(axis as int, (stride * step) as isize),
                        ((l.offset as isize) + (start as isize) * stride) as usize,
                        l.itemsize,
                    ),
                    slice_flags(self@.flags),
                )
            }),
    {
        proof {
            use_type_invariant(self);
        }
        let layout = self.layout.slice_axis(axis, arg)?;
        Ok(Buffer {
            data: slice_to_vec(self.data.as_slice()),
            dtype: self.dtype,
            layout,
            flags: self.flags.remove(BufferFlags::writeable()).remove(BufferFlags::c_contiguous()).remove(
                BufferFlags::f_contiguous(),
            ),
        })
    }
}


/// `r` and `after` are the outcome of writing element `k` of `values` over
/// element `k` of `before`, in C order: a failure as [`scatter_elements`] describes
/// leaves the buffer unchanged.
pub open spec fn write_outcome(before: BufferView, after: BufferView, values: Seq<u8>, r: MohuResult<()>) -> bool {
    &&& spec_contiguous_nbytes(before.layout.shape, before.layout.itemsize) matches Err(e) ==> r == Err::<
        (),
        MohuError,
    >(e)
    &&& spec_contiguous_nbytes(before.layout.shape, before.layout.itemsize) is Ok ==> {
        &&& all_elements_ok(before.layout, before.data.len()) ==> r is Ok
        &&& !all_elements_ok(before.layout, before.data.len()) ==> (r matches Err(e) && first_bad_element(
            e,
            before.layout,
            before.data.len(),
        ))
    }
    &&& r is Ok ==> after == (BufferView {
        data: scattered(before.data, before.layout, values, shape_product(before.layout.shape) as nat),
        ..before
    })
    &&& r is Err ==> after == before
}

impl Buffer {
    /// Writes element `k` of `values` over element `k` of the buffer, in C
    /// order; fails, leaving the buffer unchanged, as [`scatter_elements`] does.
    pub(crate) fn write_elements(&mut self, values: &[u8]) -> (r: MohuResult<()>)
        requires
            values@.len() == shape_product(old(self)@.layout.shape) * old(self)@.layout.itemsize,
        ensures
            write_outcome(old(self)@, final(self)@, values@, r),
    {
        proof {
            use_type_invariant(&*self);
        }
        let mut data: Vec<u8> = Vec::new();
        std::mem::swap(&mut data, &mut self.data);
        let r = scatter_elements(&mut data, &self.layout, values);
        self.data = data;
        r
    }
}


/// The message of the error raised for flipping an axis that does not exist.
pub open spec fn flip_axis_text(axis: nat, ndim: nat) -> Seq<char> {
    "flip: axis "@ + decimal(axis) + " out of bounds for ndim "@ + decimal(ndim)
}

/// The offset of a layout with axis `axis` reversed: the element that was
/// last along that axis comes first.
pub open spec fn flipped_offset(l: LayoutView, axis: int) -> int {
    let dim = l.shape[axis];
    (l.offset as isize) + (if dim > 0 { (dim as isize - 1) * l.strides[axis] } else { 0 })
}

/// Reversing axis `axis` of `l` is computed within `isize`.
pub open spec fn flip_fits(l: LayoutView, axis: int) -> bool {
    let dim = l.shape[axis];
    &&& dim <= isize::MAX
    &&& l.offset <= isize::MAX
    &&& l.strides[axis] != isize::MIN
    &&& dim > 0 ==> isize::MIN <= (dim - 1) * l.strides[axis] <= isize::MAX
    &&& isize::MIN <= flipped_offset(l, axis) <= isize::MAX
}

/// The first row and column of diagonal `k`.
pub open spec fn diag_origin(k: i64) -> (usize, usize) {
    if k >= 0 {
        (0usize, k as usize)
    } else {
        ((-k) as usize, 0usize)
    }
}

/// `a - b`, or 0 when `b > a`.
pub open spec fn sat_sub(a: usize, b: usize) -> usize {
    if a >= b {
        (a - b) as usize
    } else {
        0
    }
}

/// The length of diagonal `k` of an `n × m` matrix.
pub open spec fn diag_len(n: usize, m: usize, k: i64) -> usize {
    let (r0, c0) = diag_origin(k);
    let a = sat_sub(n, r0);
    let b = sat_sub(m, c0);
    if a <= b {
        a
    } else {
        b
    }
}

/// The multi-index of the first element of diagonal `k` over the last two
/// axes of an `nd`-dimensional shape, every other index 0.
pub open spec fn diag_start_index(nd: nat, k: i64) -> Seq<usize> {
    let (r0, c0) = diag_origin(k);
    Seq::new(nd, |i: int| if i == nd - 2 { r0 } else if i == nd - 1 { c0 } else { 0usize })
}

impl Buffer {
    /// The view with axis `axis` reversed: its stride negated and the offset
    /// moved to the element that was last along it; not writeable and marked
    /// contiguous in neither order.
    ///
    /// Fails with `Internal` when `axis >= ndim` or when the new offset is
    /// negative, and as `Layout::new_custom` does.
    pub fn flip(&self, axis: usize) -> (r: MohuResult<Buffer>)
        requires
            axis < self@.layout.shape.len() ==> flip_fits(self@.layout, axis as int),
        ensures
            axis >= self@.layout.shape.len() ==> (r matches Err(MohuError::Internal(m)) && m@ == flip_axis_text(
                axis as nat,
                self@.layout.shape.len(),
            )),
            axis < self@.layout.shape.len() ==> {
                let l = self@.layout;
                let st = l.strides.update(axis as int, (-l.strides[axis as int]) as isize);
                &&& flipped_offset(l, axis as int) < 0 ==> (r matches Err(MohuError::Internal(m)) && m@
                    == "flip: computed offset is negative"@)
                &&& flipped_offset(l, axis as int) >= 0 ==> {
                    &&& r is Ok <==> custom_ok(l.shape, st, l.itemsize)
                    &&& r matches Ok(b) ==> b@ == with_layout(
                        self@,
                        layout_of(l.shape, st, flipped_offset(l, axis as int) as usize, l.itemsize),
                        slice_flags(self@.flags),
                    )
                    &&& r matches Err(e) ==> custom_error(e, l.shape, st, l.itemsize)
                }
            },
    {
        proof {
            use_type_invariant(self);
        }
        let nd = self.ndim();
        if axis >= nd {
            let mut m = string_of("flip: axis ");
            push_decimal(&mut m, axis as u64);
            m.append(" out of bounds for ndim ");
            push_decimal(&mut m, nd as u64);
            return Err(MohuError::Internal(m));
        }
        let dim = self.shape()[axis];
        let strides = self.strides();
        let mut new_strides = slice_to_vec(strides);
        let stride = new_strides[axis];
        let offset_delta: isize = if dim > 0 {
            (dim as isize - 1) * stride
        } else {
            0
        };
        let new_offset = self.offset() as isize + offset_delta;
        new_strides.set(axis, -stride);
        if new_offset < 0 {
            proof {
                reveal_strlit("flip: computed offset is negative");
            }
            return Err(MohuError::Internal(string_of("flip: computed offset is negative")));
        }
        let layout = Layout::new_custom(self.shape(), new_strides.as_slice(), new_offset as usize, self.itemsize())?;
        Ok(Buffer {
            data: slice_to_vec(self.data.as_slice()),
            dtype: self.dtype,
            layout,
            flags: self.flags.remove(BufferFlags::writeable()).remove(BufferFlags::c_contiguous()).remove(
                BufferFlags::f_contiguous(),
            ),
        })
    }

    /// The view of diagonal `k` over the last two axes (earlier axes kept as
    /// batch axes): its stride is the sum of the two strides; not writeable
    /// and marked contiguous in neither order.
    ///
    /// Fails with `Internal` for fewer than two dimensions, with
    /// `IndexOutOfBounds` when the first diagonal element lies outside the
    /// array, and as `Layout::new_custom` does.
    pub fn diagonal(&self, k: i64) -> (r: MohuResult<Buffer>)
        requires
            self@.layout.shape.len() >= 2 ==> {
                let l = self@.layout;
                let nd = l.shape.len();
                &&& k != i64::MIN
                &&& isize::MIN <= l.strides[nd - 2] + l.strides[nd - 1] <= isize::MAX
                &&& in_bounds(diag_start_index(nd, k), l.shape) ==> offset_fits(
                    diag_start_index(nd, k),
                    l.strides,
                    l.offset,
                )
            },
        ensures
            self@.layout.shape.len() < 2 ==> (r matches Err(MohuError::Internal(m)) && m@
                == "diagonal: requires at least 2 dimensions"@),
            self@.layout.shape.len() >= 2 ==> {
                let l = self@.layout;
                let nd = l.shape.len();
                let idx = diag_start_index(nd, k);
                let sh = l.shape.take(nd - 2).push(diag_len(l.shape[nd - 2], l.shape[nd - 1], k));
                let st = l.strides.take(nd - 2).push((l.strides[nd - 2] + l.strides[nd - 1]) as isize);
                let off = ((l.offset as isize) + offset_sum(idx, l.strides, nd as int)) as usize;
                &&& !in_bounds(idx, l.shape) ==> exists|a: int|
                    #[trigger] first_out_of_range(idx, l.shape, a) && r == Err::<Buffer, MohuError>(
                        MohuError::IndexOutOfBounds { index: idx[a] as i64, axis: a as usize, size: l.shape[a] },
                    )
                &&& in_bounds(idx, l.shape) ==> {
                    &&& r is Ok <==> custom_ok(sh, st, l.itemsize)
                    &&& r matches Ok(b) ==> b@ == with_layout(
                        self@,
                        layout_of(sh, st, off, l.itemsize),
                        slice_flags(self@.flags),
                    )
                    &&& r matches Err(e) ==> custom_error(e, sh, st, l.itemsize)
                }
            },
    {
        proof {
            use_type_invariant(self);
        }
        let nd = self.ndim();
        if nd < 2 {
            proof {
                reveal_strlit("diagonal: requires at least 2 dimensions");
            }
            return Err(MohuError::Internal(string_of("diagonal: requires at least 2 dimensions")));
        }
        let shape = self.shape();
        let strides = self.strides();
        let n = shape[nd - 2];
        let m = shape[nd - 1];
        let (row_start, col_start) = if k >= 0 {
            (0usize, k as usize)
        } else {
            ((-k) as usize, 0usize)
        };
        let a = n.saturating_sub(row_start);
        let b = m.saturating_sub(col_start);
        let len = if a <= b {
            a
        } else {
            b
        };
        let diag_stride = strides[nd - 2] + strides[nd - 1];
        let mut start_idx: Vec<usize> = Vec::new();
        let mut i: usize = 0;
        while i < nd
            invariant
                i <= nd,
                nd >= 2,
                start_idx@ =~= Seq::new(
                    i as nat,
                    |q: int| if q == nd - 2 { row_start } else if q == nd - 1 { col_start } else { 0usize },
                ),
            decreases nd - i,
        {
            if i == nd - 2 {
                start_idx.push(row_start);
            } else if i == nd - 1 {
                start_idx.push(col_start);
            } else {
                start_idx.push(0);
            }
            i = i + 1;
        }
        proof {
            assert(start_idx@ =~= diag_start_index(nd as nat, k));
        }
        let start_off = match self.layout.byte_offset(start_idx.as_slice()) {
            Ok(o) => o,
            Err(e) => {
                proof {
                    let ax = e->IndexOutOfBounds_axis as int;
                    assert(first_out_of_range(start_idx@, shape@, ax));
                }
                return Err(e);
            },
        };
        let mut new_shape: Vec<usize> = Vec::new();
        let mut new_strides: Vec<isize> = Vec::new();
        let mut j: usize = 0;
        while j < nd - 2
            invariant
                j <= nd - 2,
                nd == shape@.len(),
                nd == strides@.len(),
                new_shape@ =~= shape@.take(j as int),
                new_strides@ =~= strides@.take(j as int),
            decreases nd - 2 - j,
        {
            new_shape.push(shape[j]);
            new_strides.push(strides[j]);
            j = j + 1;
        }
        new_shape.push(len);
        new_strides.push(diag_stride);
        let layout = Layout::new_custom(new_shape.as_slice(), new_strides.as_slice(), start_off, self.itemsize())?;
        Ok(Buffer {
            data: slice_to_vec(self.data.as_slice()),
            dtype: self.dtype,
            layout,
            flags: self.flags.remove(BufferFlags::writeable()).remove(BufferFlags::c_contiguous()).remove(
                BufferFlags::f_contiguous(),
            ),
        })
    }

    /// Copies the elements of `src` over those of this buffer, position by
    /// position in C order; fails as [`copy_outcome`] describes.
    pub fn copy_from(&mut self, src: &Buffer) -> (r: MohuResult<()>)
        requires
            prefixes_fit(src@.layout.shape, usize::MAX as int),
            prefixes_fit(old(self)@.layout.shape, usize::MAX as int),
        ensures
            copy_outcome(src@, old(self)@, final(self)@, r),
    {
        copy_to_contiguous(src, self)
    }
}


/// The bytes of an `n × m` C-order matrix of elements of `one.len()` bytes
/// holding `one` where `c - r == k` and zero elsewhere.
pub open spec fn eye_bytes(n: nat, m: nat, k: int, one: Seq<u8>) -> Seq<u8> {
    let isz = one.len() as int;
    Seq::new(
        n * m * one.len(),
        |q: int|
            {
                let e = q / isz;
                if e % (m as int) - e / (m as int) == k {
                    one[q % isz]
                } else {
                    0u8
                }
            },
    )
}

/// The first row of diagonal `k`.
pub open spec fn diag_row0(k: int) -> int {
    if k >= 0 {
        0
    } else {
        -k
    }
}

/// The bytes of a `size × size` C-order matrix whose diagonal `k` holds the
/// elements of `vals` (each `isz` bytes) in order, zero elsewhere.
pub open spec fn diag_bytes(size: nat, k: int, isz: nat, vals: Seq<u8>) -> Seq<u8> {
    Seq::new(
        size * size * isz,
        |q: int|
            {
                let e = q / (isz as int);
                let r = e / (size as int);
                let c = e % (size as int);
                if c - r == k {
                    vals[(r - diag_row0(k)) * isz + q % (isz as int)]
                } else {
                    0u8
                }
            },
    )
}

/// The bytes `g` of a C-order matrix with `cols` columns and elements of
/// `isz` bytes, with the elements above diagonal `k` (`c > r + k`, when
/// `lower`) or below it (`c < r + k`, otherwise) set to zero.
pub open spec fn tri_bytes(g: Seq<u8>, cols: nat, isz: nat, k: int, lower: bool) -> Seq<u8> {
    Seq::new(
        g.len(),
        |q: int|
            {
                let e = q / (isz as int);
                let r = e / (cols as int);
                let c = e % (cols as int);
                if (lower && c > r + k) || (!lower && c < r + k) {
                    0u8
                } else {
                    g[q]
                }
            },
    )
}

/// Appending the bytes of element `e` to a prefix of `e` elements of
/// `target` gives a prefix of `e + 1` elements.
pub(crate) proof fn lemma_append_element(target: Seq<u8>, isz: nat, e: nat, before: Seq<u8>, piece: Seq<u8>)
    requires
        isz > 0,
        (e + 1) * isz <= target.len(),
        before.len() == e * isz,
        forall|q: int| 0 <= q < e * isz ==> #[trigger] before[q] == target[q],
        piece.len() == isz,
        forall|j: int| 0 <= j < isz ==> #[trigger] piece[j] == target[e * isz + j],
    ensures
        (before + piece).len() == (e + 1) * isz,
        forall|q: int| 0 <= q < (e + 1) * isz ==> #[trigger] (before + piece)[q] == target[q],
{
    assert((e + 1) * isz == e * isz + isz) by (nonlinear_arith);
    assert forall|q: int| 0 <= q < (e + 1) * isz implies #[trigger] (before + piece)[q] == target[q] by {
        if q >= e * isz {
            assert(piece[q - e * isz] == target[e * isz + (q - e * isz)]);
        }
    }
}

/// Byte `j` of element `e` lies at position `e * isz + j`.
pub(crate) proof fn lemma_element_pos(e: int, j: int, isz: int)
    requires
        isz > 0,
        0 <= j < isz,
        e >= 0,
    ensures
        (e * isz + j) / isz == e,
        (e * isz + j) % isz == j,
{
    vstd::arithmetic::div_mod::lemma_fundamental_div_mod_converse(e * isz + j, isz, e, j);
}

impl Buffer {
    /// An `n × m` C-order matrix of `dtype` with ones (stored in byte order
    /// `little`) on diagonal `k` and zeros elsewhere.
    ///
    /// Fails as [`Buffer::zeros`] does for shape `[n, m]`.
    pub fn eye_with_byte_order(n: usize, m: usize, k: i64, dtype: DType, little: bool) -> (r: MohuResult<Buffer>)
        requires
            n > 0 && m > 0 && k < 0 ==> k > i64::MIN && -k <= n,
        ensures
            spec_contiguous_nbytes(seq![n, m], spec_itemsize(dtype) as usize) matches Err(e) ==> r == Err::<
                Buffer,
                MohuError,
            >(e),
            spec_contiguous_nbytes(seq![n, m], spec_itemsize(dtype) as usize) matches Ok(nb) ==> {
                let st = order_strides(dtype, seq![n, m], Order::C);
                let isz = spec_itemsize(dtype) as usize;
                &&& r is Ok <==> custom_ok(seq![n, m], st, isz)
                &&& r matches Ok(b) ==> b@ == (BufferView {
                    data: eye_bytes(n as nat, m as nat, k as int, one_bytes(dtype, little)),
                    ..allocated(dtype, seq![n, m], Order::C, nb as nat)
                })
                &&& r matches Err(e) ==> custom_error(e, seq![n, m], st, isz)
            },
    {
        let shape = [n, m];
        proof {
            assert(shape@ =~= seq![n, m]);
        }
        let buf = Buffer::zeros(dtype, &shape)?;
        let isz = dtype.itemsize();
        let one = one_bytes_vec(dtype, little);
        proof {
            lemma_one_bytes_len(dtype, little);
            let s = seq![n, m];
            assert(s.take(2) =~= s);
            assert(s.take(1) =~= seq![n]);
            assert(s.take(0) =~= Seq::<usize>::empty());
            assert(seq![n].drop_last() =~= Seq::<usize>::empty());
            assert(s.drop_last() =~= seq![n]);
            reveal_with_fuel(shape_product, 3);
            assert(shape_product(s) == n * m);
        }
        let ghost target = eye_bytes(n as nat, m as nat, k as int, one@);
        let total = n * m;
        let mut out: Vec<u8> = Vec::new();
        let mut e: usize = 0;
        while e < total
            invariant
                e <= total,
                total == n * m,
                m > 0 || total == 0,
                isz == one@.len(),
                isz > 0,
                total * isz <= usize::MAX,
                target == eye_bytes(n as nat, m as nat, k as int, one@),
                target.len() == total * isz,
                out@.len() == e * isz,
                forall|q: int| 0 <= q < e * isz ==> #[trigger] out@[q] == target[q],
            decreases total - e,
        {
            let row = e / m;
            let col = e % m;
            let ghost before = out@;
            let mut piece: Vec<u8> = if (col as i128) - (row as i128) == k as i128 {
                slice_to_vec(one.as_slice())
            } else {
                zero_bytes(isz)
            };
            proof {
                assert((e + 1) * isz <= total * isz) by (nonlinear_arith)
                    requires
                        e < total,
                ;
                assert forall|j: int| 0 <= j < isz implies #[trigger] piece@[j] == target[e * isz + j] by {
                    lemma_element_pos(e as int, j, isz as int);
                    assert(e * isz + j < (e + 1) * isz) by (nonlinear_arith)
                        requires
                            j < isz,
                    ;
                    assert(target[e * isz + j] == (if (e as int) % (m as int) - (e as int) / (m as int)
                        == k { one@[j] } else { 0u8 }));
                }
                lemma_append_element(target, isz as nat, e as nat, before, piece@);
            }
            out.append(&mut piece);
            e = e + 1;
        }
        proof {
            assert(out@ =~= target);
        }
        Ok(Buffer { data: out, dtype: buf.dtype, layout: buf.layout, flags: buf.flags })
    }
}

impl Buffer {
    /// An `n × m` C-order identity-like matrix of `dtype` with ones on
    /// diagonal `k` (`k > 0` above the main diagonal, `k < 0` below it),
    /// stored in the host's byte order.
    ///
    /// Fails as [`Buffer::zeros`] does for shape `[n, m]`.
    pub fn eye(n: usize, m: usize, k: i64, dtype: DType) -> (r: MohuResult<Buffer>)
        requires
            n > 0 && m > 0 && k < 0 ==> k > i64::MIN && -k <= n,
        ensures
            spec_contiguous_nbytes(seq![n, m], spec_itemsize(dtype) as usize) matches Err(e) ==> r == Err::<
                Buffer,
                MohuError,
            >(e),
            spec_contiguous_nbytes(seq![n, m], spec_itemsize(dtype) as usize) matches Ok(nb) ==> {
                let st = order_strides(dtype, seq![n, m], Order::C);
                let isz = spec_itemsize(dtype) as usize;
                &&& r is Ok <==> custom_ok(seq![n, m], st, isz)
                &&& r matches Ok(b) ==> (b@ == (BufferView {
                    data: eye_bytes(n as nat, m as nat, k as int, one_bytes(dtype, true)),
                    ..allocated(dtype, seq![n, m], Order::C, nb as nat)
                }) || b@ == (BufferView {
                    data: eye_bytes(n as nat, m as nat, k as int, one_bytes(dtype, false)),
                    ..allocated(dtype, seq![n, m], Order::C, nb as nat)
                }))
                &&& r matches Err(e) ==> custom_error(e, seq![n, m], st, isz)
            },
    {
        let little = crate::compat::ByteOrder::host_is_little_endian();
        Buffer::eye_with_byte_order(n, m, k, dtype, little)
    }
}

impl Buffer {
    /// The `size × size` C-order matrix, `size = len(v) + |k|`, whose
    /// diagonal `k` holds the elements of the one-dimensional `v` in order and
    /// whose other elements are zero.
    ///
    /// Fails with `Internal` unless `v` has exactly one dimension, then as
    /// [`Buffer::zeros`] does for shape `[size, size]`, then as reading the
    /// elements of `v` does.
    #[verifier::rlimit(50)]
    #[verifier::spinoff_prover]
    pub fn diag(v: &Buffer, k: i64) -> (r: MohuResult<Buffer>)
        requires
            v@.layout.shape.len() == 1 ==> k > i64::MIN && v@.layout.shape[0] + (if k >= 0 {
                k as int
            } else {
                -k
            }) <= usize::MAX,
        ensures
            v@.layout.shape.len() != 1 ==> (r matches Err(MohuError::Internal(m)) && m@
                == "Buffer::diag: input must be 1-D"@),
            v@.layout.shape.len() == 1 ==> {
                let d = v@.dtype;
                let isz = spec_itemsize(d) as usize;
                let size = (v@.layout.shape[0] + (if k >= 0 { k as int } else { -k })) as usize;
                let sh = seq![size, size];
                let st = order_strides(d, sh, Order::C);
                &&& spec_contiguous_nbytes(sh, isz) matches Err(e) ==> r == Err::<Buffer, MohuError>(e)
                &&& spec_contiguous_nbytes(sh, isz) matches Ok(nb) ==> {
                    &&& !custom_ok(sh, st, isz) ==> (r matches Err(e) && custom_error(e, sh, st, isz))
                    &&& custom_ok(sh, st, isz) ==> elements_result(
                        v@,
                        match r {
                            Ok(_) => Ok(gathered(v@.data, v@.layout)),
                            Err(e) => Err(e),
                        },
                    )
                    &&& r matches Ok(b) ==> b@ == (BufferView {
                        data: diag_bytes(size as nat, k as int, isz as nat, gathered(v@.data, v@.layout)),
                        ..allocated(d, sh, Order::C, nb as nat)
                    })
                }
            },
    {
        proof {
            use_type_invariant(v);
        }
        if v.ndim() != 1 {
            proof {
                reveal_strlit("Buffer::diag: input must be 1-D");
            }
            return Err(MohuError::Internal(string_of("Buffer::diag: input must be 1-D")));
        }
        let n = v.shape()[0];
        let row0: usize = if k >= 0 {
            0
        } else {
            (-k) as usize
        };
        let size = if k >= 0 {
            n + k as usize
        } else {
            n + row0
        };
        let shape = [size, size];
        proof {
            let s = seq![size, size];
            assert(shape@ =~= s);
            assert(s.drop_last() =~= seq![size]);
            assert(seq![size].drop_last() =~= Seq::<usize>::empty());
            reveal_with_fuel(shape_product, 3);
            assert(shape_product(s) == size * size);
        }
        let buf = Buffer::zeros(v.dtype, &shape)?;
        let (c, cnt) = v.elements()?;
        let isz = v.dtype.itemsize();
        let zero = zero_bytes(isz);
        proof {
            assert(v@.layout.shape =~= seq![n]);
            assert(seq![n].drop_last() =~= Seq::<usize>::empty());
            assert(shape_product(Seq::<usize>::empty()) == 1);
            assert(shape_product(seq![n]) == shape_product(seq![n].drop_last()) * n);
            assert(cnt == n);
            let s = seq![size, size];
            assert(spec_contiguous_nbytes(s, isz) is Ok);
            assert(s.take(2) =~= s);
            assert(shape_product(s) * isz <= usize::MAX);
            assert(size * size <= usize::MAX) by (nonlinear_arith)
                requires
                    size * size * isz <= usize::MAX,
                    isz >= 1,
            ;
        }
        let ghost vals = c@;
        let ghost target = diag_bytes(size as nat, k as int, isz as nat, vals);
        let total = size * size;
        let mut out: Vec<u8> = Vec::new();
        let mut e: usize = 0;
        while e < total
            invariant
                e <= total,
                total == size * size,
                isz == spec_itemsize(v@.dtype),
                isz > 0,
                total * isz <= usize::MAX,
                vals == c@,
                c@.len() == n * isz,
                zero@ == Seq::new(isz as nat, |i: int| 0u8),
                row0 as int == diag_row0(k as int),
                size == n + row0 + (if k >= 0 { k as int } else { 0 }),
                target == diag_bytes(size as nat, k as int, isz as nat, vals),
                target.len() == total * isz,
                out@.len() == e * isz,
                forall|q: int| 0 <= q < e * isz ==> #[trigger] out@[q] == target[q],
            decreases total - e,
        {
            let row = e / size;
            let col = e % size;
            let ghost before = out@;
            proof {
                assert((e + 1) * isz <= total * isz) by (nonlinear_arith)
                    requires
                        e < total,
                ;
            }
            if (col as i128) - (row as i128) == k as i128 {
                proof {
                    assert(row < size) by (nonlinear_arith)
                        requires
                            e < total,
                            total == size * size,
                            row == e / size,
                    ;
                    assert((row - row0) * isz + isz <= n * isz) by (nonlinear_arith)
                        requires
                            row - row0 < n,
                            row >= row0,
                    ;
                }
                let at = (row - row0) * isz;
                push_bytes(&mut out, c.as_slice(), at, isz);
                proof {
                    let piece = c@.subrange(at as int, at + isz);
                    assert(out@ =~= before + piece);
                    assert forall|j: int| 0 <= j < isz implies #[trigger] piece[j] == target[e * isz + j] by {
                        lemma_element_pos(e as int, j, isz as int);
                        assert(e * isz + j < (e + 1) * isz) by (nonlinear_arith)
                            requires
                                j < isz,
                        ;
                    }
                    lemma_append_element(target, isz as nat, e as nat, before, piece);
                }
            } else {
                push_bytes(&mut out, zero.as_slice(), 0, isz);
                proof {
                    let piece = zero@.subrange(0, isz as int);
                    assert(out@ =~= before + piece);
                    assert forall|j: int| 0 <= j < isz implies #[trigger] piece[j] == target[e * isz + j] by {
                        lemma_element_pos(e as int, j, isz as int);
                        assert(e * isz + j < (e + 1) * isz) by (nonlinear_arith)
                            requires
                                j < isz,
                        ;
                    }
                    lemma_append_element(target, isz as nat, e as nat, before, piece);
                }
            }
            e = e + 1;
        }
        proof {
            assert(out@ =~= target);
        }
        Ok(Buffer { data: out, dtype: buf.dtype, layout: buf.layout, flags: buf.flags })
    }
}

/// What [`Buffer::tril`] (`lower`) and [`Buffer::triu`] give for a
/// two-dimensional buffer `b`: its C-order copy with the elements on the
/// zeroed side of diagonal `k` set to zero, or the error of that copy.
pub open spec fn triangle_outcome(b: BufferView, k: int, lower: bool, r: MohuResult<Buffer>) -> bool {
    let sh = b.layout.shape;
    let isz = b.layout.itemsize;
    let st = c_strides_of(sh, isz);
    &&& spec_contiguous_nbytes(sh, isz) matches Err(e) ==> r == Err::<Buffer, MohuError>(e)
    &&& spec_contiguous_nbytes(sh, isz) matches Ok(nb) ==> {
        &&& !custom_ok(sh, st, isz) ==> (r matches Err(e) && custom_error(e, sh, st, isz))
        &&& custom_ok(sh, st, isz) && all_elements_ok(b.layout, b.data.len()) ==> (r matches Ok(o) && o@
            == BufferView {
            data: tri_bytes(gathered(b.data, b.layout), sh[1] as nat, isz as nat, k, lower),
            ..allocated(b.dtype, sh, Order::C, nb as nat)
        })
        &&& custom_ok(sh, st, isz) && !all_elements_ok(b.layout, b.data.len()) ==> (r matches Err(e)
            && first_bad_element(e, b.layout, b.data.len()))
    }
}

impl Buffer {
    /// The C-order copy of this two-dimensional buffer with the elements
    /// above (`lower`) or below diagonal `k` zeroed.
    fn triangle(&self, k: i64, lower: bool) -> (r: MohuResult<Buffer>)
        requires
            self@.layout.shape.len() == 2,
        ensures
            triangle_outcome(self@, k as int, lower, r),
    {
        proof {
            use_type_invariant(self);
        }
        let out = self.to_contiguous()?;
        let cols = self.layout.shape()[1];
        let isz = self.itemsize();
        let glen = out.data.len();
        let ghost g = out.data@;
        let ghost sh = self@.layout.shape;
        proof {
            reveal(gathered);
            assert(sh.drop_last().drop_last() =~= Seq::<usize>::empty());
            reveal_with_fuel(shape_product, 3);
            assert(glen == sh[0] * cols * isz);
        }
        let ghost target = tri_bytes(g, cols as nat, isz as nat, k as int, lower);
        let mut data: Vec<u8> = Vec::new();
        let mut q: usize = 0;
        while q < glen
            invariant
                q <= glen,
                glen == g.len(),
                g == out.data@,
                isz > 0,
                glen == sh[0] * cols * isz,
                target == tri_bytes(g, cols as nat, isz as nat, k as int, lower),
                data@ =~= target.take(q as int),
            decreases glen - q,
        {
            let e = q / isz;
            proof {
                assert(cols > 0) by (nonlinear_arith)
                    requires
                        q < glen,
                        glen == sh[0] * cols * isz,
                ;
            }
            let row = e / cols;
            let col = e % cols;
            let zero = if lower {
                (col as i128) > (row as i128) + (k as i128)
            } else {
                (col as i128) < (row as i128) + (k as i128)
            };
            if zero {
                data.push(0);
            } else {
                data.push(out.data[q]);
            }
            proof {
                assert(data@ =~= target.take(q + 1));
            }
            q = q + 1;
        }
        proof {
            assert(target.take(glen as int) =~= target);
        }
        Ok(Buffer { data, dtype: out.dtype, layout: out.layout, flags: out.flags })
    }

    /// The lower-triangular C-order copy of this two-dimensional buffer: the
    /// elements above diagonal `k` (column `c > r + k`) are zero.
    ///
    /// Fails with `Internal` unless the buffer has exactly two dimensions,
    /// then as [`Buffer::to_contiguous`] does.
    pub fn tril(&self, k: i64) -> (r: MohuResult<Buffer>)
        requires
            self@.layout.shape.len() == 2 && self@.layout.shape[0] > 0 && self@.layout.shape[1] > 0
                ==> self@.layout.shape[0] - 1 + k <= i64::MAX,
        ensures
            self@.layout.shape.len() != 2 ==> (r matches Err(MohuError::Internal(m)) && m@
                == "tril: requires exactly 2 dimensions"@),
            self@.layout.shape.len() == 2 ==> triangle_outcome(self@, k as int, true, r),
    {
        if self.ndim() != 2 {
            proof {
                reveal_strlit("tril: requires exactly 2 dimensions");
            }
            return Err(MohuError::Internal(string_of("tril: requires exactly 2 dimensions")));
        }
        self.triangle(k, true)
    }

    /// The upper-triangular C-order copy of this two-dimensional buffer: the
    /// elements below diagonal `k` (column `c < r + k`) are zero.
    ///
    /// Fails with `Internal` unless the buffer has exactly two dimensions,
    /// then as [`Buffer::to_contiguous`] does.
    pub fn triu(&self, k: i64) -> (r: MohuResult<Buffer>)
        requires
            self@.layout.shape.len() == 2 && self@.layout.shape[0] > 0 && self@.layout.shape[1] > 0
                ==> self@.layout.shape[0] - 1 + k <= i64::MAX,
        ensures
            self@.layout.shape.len() != 2 ==> (r matches Err(MohuError::Internal(m)) && m@
                == "triu: requires exactly 2 dimensions"@),
            self@.layout.shape.len() == 2 ==> triangle_outcome(self@, k as int, false, r),
    {
        if self.ndim() != 2 {
            proof {
                reveal_strlit("triu: requires exactly 2 dimensions");
            }
            return Err(MohuError::Internal(string_of("triu: requires exactly 2 dimensions")));
        }
        self.triangle(k, false)
    }
}

impl Clone for Buffer {
    /// A copy of this buffer that is not writeable.
    fn clone(&self) -> (r: Self)
        ensures
            r@ == (BufferView { flags: self@.flags & !1u8, ..self@ }),
    {
        proof {
            use_type_invariant(self);
        }
        Buffer {
            data: slice_to_vec(self.data.as_slice()),
            dtype: self.dtype,
            layout: self.layout.clone(),
            flags: self.flags.remove(BufferFlags::writeable()),
        }
    }
}

impl Buffer {
    /// The position, in C order, of the least element (the first of equal
    /// ones), floats read in the host's byte order; fails as
    /// [`extreme_outcome`] describes.
    pub fn argmin_flat(&self) -> (r: MohuResult<usize>)
        ensures
            extreme_outcome(self@, true, false, r) || extreme_outcome(self@, false, false, r),
    {
        crate::ops::argmin_flat(self)
    }

    /// The position, in C order, of the greatest element (the first of
    /// equal ones), floats read in the host's byte
    /// order; fails as [`extreme_outcome`] describes.
    pub fn argmax_flat(&self) -> (r: MohuResult<usize>)
        ensures
            extreme_outcome(self@, true, true, r) || extreme_outcome(self@, false, true, r),
    {
        crate::ops::argmax_flat(self)
    }
}


/// A read gives back what a write wrote: once the bytes `value` of one
/// element are written over the element at `idx` of `b` (as
/// [`Buffer::set_bytes`] does), that element still lies within the store and
/// holds `value` (what [`Buffer::get_bytes`] returns), and an element whose
/// bytes do not overlap it keeps its bytes.
pub proof fn lemma_read_after_write(b: BufferView, idx: Seq<usize>, value: Seq<u8>, other: Seq<usize>)
    requires
        value.len() == b.layout.itemsize,
        element_ok(b.layout, idx, b.data.len()),
    ensures
        ({
            let off = element_offset(b.layout, idx);
            let after = overwrite(b.data, off, value);
            let isz = b.layout.itemsize as int;
            let o = element_offset(b.layout, other);
            &&& after.len() == b.data.len()
            &&& element_ok(b.layout, idx, after.len())
            &&& after.subrange(off, off + isz) == value
            &&& element_ok(b.layout, other, b.data.len()) && (o + isz <= off || off + isz <= o) ==> after.subrange(
                o,
                o + isz,
            ) == b.data.subrange(o, o + isz)
        }),
{
    reveal(element_ok);
    let off = element_offset(b.layout, idx);
    let after = overwrite(b.data, off, value);
    let isz = b.layout.itemsize as int;
    assert(after.subrange(off, off + isz) =~= value);
    let o = element_offset(b.layout, other);
    if element_ok(b.layout, other, b.data.len()) && (o + isz <= off || off + isz <= o) {
        assert(after.subrange(o, o + isz) =~= b.data.subrange(o, o + isz));
    }
}


/// Transposing twice gives back the layout: reversing the axes is undone
/// by reversing them again.
pub proof fn lemma_transpose_twice(l: LayoutView)
    ensures
        ({
            let t = layout_of(l.shape.reverse(), l.strides.reverse(), l.offset, l.itemsize);
            layout_of(t.shape.reverse(), t.strides.reverse(), t.offset, t.itemsize) == l
        }),
{
    assert(l.shape.reverse().reverse() =~= l.shape);
    assert(l.strides.reverse().reverse() =~= l.strides);
}

/// Reversing an axis twice gives back the layout: the stride is negated
/// back and the offset returns to the first element.
pub proof fn lemma_flip_twice(l: LayoutView, axis: int)
    requires
        0 <= axis < l.shape.len(),
        l.shape.len() == l.strides.len(),
        flip_fits(l, axis),
        flipped_offset(l, axis) >= 0,
    ensures
        ({
            let st = l.strides.update(axis, (-l.strides[axis]) as isize);
            let f = layout_of(l.shape, st, flipped_offset(l, axis) as usize, l.itemsize);
            &&& flipped_offset(f, axis) == l.offset
            &&& f.strides.update(axis, (-f.strides[axis]) as isize) == l.strides
        }),
{
    let st = l.strides.update(axis, (-l.strides[axis]) as isize);
    let f = layout_of(l.shape, st, flipped_offset(l, axis) as usize, l.itemsize);
    assert(f.strides.update(axis, (-f.strides[axis]) as isize) =~= l.strides);
    let dim = l.shape[axis];
    if dim > 0 {
        assert((dim as isize - 1) * f.strides[axis] == -((dim as isize - 1) * l.strides[axis])) by (nonlinear_arith)
            requires
                f.strides[axis] == -l.strides[axis],
        ;
    }
}


/// The multi-index of diagonal element `i` of a matrix.
pub open spec fn diag_index(i: int) -> Seq<usize> {
    seq![i as usize, i as usize]
}

/// The bytes of `b` after `value` is written over its first `k` diagonal
/// elements, in order.
pub open spec fn diag_filled(b: BufferView, value: Seq<u8>, k: nat) -> Seq<u8>
    decreases k,
{
    if k == 0 {
        b.data
    } else {
        overwrite(diag_filled(b, value, (k - 1) as nat), element_offset(b.layout, diag_index(k - 1)), value)
    }
}

/// The outcome of writing `value` over the main diagonal of the matrix
/// `before`: `Internal` unless it has exactly two dimensions or when `value`
/// is not one element long, `ReadOnly`, in that order; then the diagonal
/// elements are written in order, stopping with the failure of the first
/// that does not lie within the store (the ones before it stay written).
#[verifier::opaque]
pub open spec fn fill_diagonal_outcome(before: BufferView, after: BufferView, value: Seq<u8>, r: MohuResult<()>) -> bool {
    let l = before.layout;
    let n = if l.shape[0] <= l.shape[1] {
        l.shape[0]
    } else {
        l.shape[1]
    };
    let len = before.data.len();
    if l.shape.len() != 2 {
        r matches Err(MohuError::Internal(m)) && m@ == "fill_diagonal: requires exactly 2 dimensions"@ && after
            == before
    } else if value.len() != l.itemsize {
        r matches Err(MohuError::Internal(m)) && m@ == set_len_text(value.len(), l.itemsize as nat) && after
            == before
    } else if before.flags & 1u8 != 1u8 {
        r == Err::<(), MohuError>(MohuError::ReadOnly) && after == before
    } else if forall|i: int| 0 <= i < n ==> element_ok(l, #[trigger] diag_index(i), len) {
        r is Ok && after == (BufferView { data: diag_filled(before, value, n as nat), ..before })
    } else {
        exists|k: int|
            0 <= k < n && !element_ok(l, #[trigger] diag_index(k), len) && (forall|i: int|
                0 <= i < k ==> element_ok(l, #[trigger] diag_index(i), len)) && (r matches Err(e)
                && bad_index_error(e, l, diag_index(k), len)) && after == (BufferView {
                data: diag_filled(before, value, k as nat),
                ..before
            })
    }
}

/// A failure at diagonal element `k`, after the earlier ones were written,
/// is the outcome [`fill_diagonal_outcome`] describes.
proof fn lemma_fill_diagonal_stops(b: BufferView, value: Seq<u8>, k: nat, e: MohuError)
    requires
        b.layout.shape.len() == 2,
        value.len() == b.layout.itemsize,
        b.flags & 1u8 == 1u8,
        k < b.layout.shape[0] && k < b.layout.shape[1],
        !element_ok(b.layout, diag_index(k as int), b.data.len()),
        forall|j: int| 0 <= j < k ==> element_ok(b.layout, #[trigger] diag_index(j), b.data.len()),
        bad_index_error(e, b.layout, diag_index(k as int), b.data.len()),
    ensures
        fill_diagonal_outcome(b, BufferView { data: diag_filled(b, value, k), ..b }, value, Err(e)),
{
    reveal(fill_diagonal_outcome);
    let l = b.layout;
    let n = if l.shape[0] <= l.shape[1] {
        l.shape[0]
    } else {
        l.shape[1]
    };
    assert(!(forall|j: int| 0 <= j < n ==> element_ok(l, #[trigger] diag_index(j), b.data.len())));
}

/// Writing every diagonal element, each within the store, is the outcome
/// [`fill_diagonal_outcome`] describes; so are the early failures.
proof fn lemma_fill_diagonal_done(b: BufferView, after: BufferView, value: Seq<u8>, n: nat, r: MohuResult<()>)
    requires
        b.layout.shape.len() != 2 ==> (r matches Err(MohuError::Internal(m)) && m@
            == "fill_diagonal: requires exactly 2 dimensions"@ && after == b),
        b.layout.shape.len() == 2 && value.len() != b.layout.itemsize ==> (r matches Err(MohuError::Internal(m))
            && m@ == set_len_text(value.len(), b.layout.itemsize as nat) && after == b),
        b.layout.shape.len() == 2 && value.len() == b.layout.itemsize && b.flags & 1u8 != 1u8 ==> (r == Err::<
            (),
            MohuError,
        >(MohuError::ReadOnly) && after == b),
        b.layout.shape.len() == 2 && value.len() == b.layout.itemsize && b.flags & 1u8 == 1u8 ==> {
            &&& n == (if b.layout.shape[0] <= b.layout.shape[1] {
                b.layout.shape[0]
            } else {
                b.layout.shape[1]
            })
            &&& forall|j: int| 0 <= j < n ==> element_ok(b.layout, #[trigger] diag_index(j), b.data.len())
            &&& r is Ok
            &&& after == (BufferView { data: diag_filled(b, value, n), ..b })
        },
    ensures
        fill_diagonal_outcome(b, after, value, r),
{
    reveal(fill_diagonal_outcome);
}

proof fn lemma_diag_filled_len(b: BufferView, value: Seq<u8>, k: nat)
    ensures
        diag_filled(b, value, k).len() == b.data.len(),
    decreases k,
{
    if k > 0 {
        lemma_diag_filled_len(b, value, (k - 1) as nat);
    }
}

impl Buffer {
    /// Writes `value` over diagonal element `i` of this writeable matrix.
    fn write_diagonal_element(&mut self, i: usize, value: &[u8]) -> (r: MohuResult<()>)
        requires
            old(self)@.layout.shape.len() == 2,
            i < old(self)@.layout.shape[0],
            i < old(self)@.layout.shape[1],
            value@.len() == old(self)@.layout.itemsize,
            old(self)@.flags & 1u8 == 1u8,
        ensures
            r is Ok <==> element_ok(old(self)@.layout, diag_index(i as int), old(self)@.data.len()),
            r is Ok ==> final(self)@ == (BufferView {
                data: overwrite(old(self)@.data, element_offset(old(self)@.layout, diag_index(i as int)), value@),
                ..old(self)@
            }),
            r matches Err(e) ==> bad_index_error(e, old(self)@.layout, diag_index(i as int), old(self)@.data.len())
                && final(self)@ == old(self)@,
    {
        let idx = [i, i];
        proof {
            assert(idx@ =~= diag_index(i as int));
            assert(in_bounds(idx@, old(self)@.layout.shape));
        }
        self.set_bytes(&idx, value)
    }

    /// Writes `value`, the bytes of one element, over each element of the
    /// main diagonal of this matrix; fails as [`fill_diagonal_outcome`]
    /// describes.
    pub fn fill_diagonal(&mut self, value: &[u8]) -> (r: MohuResult<()>)
        ensures
            fill_diagonal_outcome(old(self)@, final(self)@, value@, r),
    {
        if self.ndim() != 2 {
            proof {
                reveal_strlit("fill_diagonal: requires exactly 2 dimensions");
            }
            let r = Err(MohuError::Internal(string_of("fill_diagonal: requires exactly 2 dimensions")));
            proof {
                lemma_fill_diagonal_done(self@, self@, value@, 0, r);
            }
            return r;
        }
        let isz = self.itemsize();
        if value.len() != isz {
            let mut m = string_of("Buffer::set_bytes: value.len()=");
            push_decimal(&mut m, value.len() as u64);
            m.append(" != itemsize=");
            push_decimal(&mut m, isz as u64);
            let r = Err(MohuError::Internal(m));
            proof {
                lemma_fill_diagonal_done(self@, self@, value@, 0, r);
            }
            return r;
        }
        let ghost b0 = self@;
        if !self.is_writeable() {
            proof {
                lemma_fill_diagonal_done(b0, b0, value@, 0, Err(MohuError::ReadOnly));
            }
            return Err(MohuError::ReadOnly);
        }
        let rows = self.shape()[0];
        let cols = self.shape()[1];
        let n = if rows <= cols {
            rows
        } else {
            cols
        };
        let mut i: usize = 0;
        while i < n
            invariant
                i <= n,
                n <= b0.layout.shape[0] && n <= b0.layout.shape[1],
                n == (if b0.layout.shape[0] <= b0.layout.shape[1] {
                    b0.layout.shape[0]
                } else {
                    b0.layout.shape[1]
                }),
                b0.layout.shape.len() == 2,
                value@.len() == b0.layout.itemsize,
                b0.flags & 1u8 == 1u8,
                b0 == old(self)@,
                self@ == (BufferView { data: diag_filled(b0, value@, i as nat), ..b0 }),
                forall|j: int| 0 <= j < i ==> element_ok(b0.layout, #[trigger] diag_index(j), b0.data.len()),
            decreases n - i,
        {
            proof {
                lemma_diag_filled_len(b0, value@, i as nat);
            }
            match self.write_diagonal_element(i, value) {
                Ok(()) => {},
                Err(e) => {
                    proof {
                        lemma_fill_diagonal_stops(b0, value@, i as nat, e);
                    }
                    return Err(e);
                },
            }
            i = i + 1;
        }
        proof {
            lemma_fill_diagonal_done(b0, self@, value@, n as nat, Ok(()));
        }
        Ok(())
    }
}

impl Buffer {
    /// A read-only buffer with the same contents and layout: not writeable,
    /// every other flag kept.
    pub fn share(&self) -> (r: Buffer)
        ensures
            r@ == (BufferView { flags: self@.flags & !1u8, ..self@ }),
    {
        self.clone()
    }
}


/// Reading the elements of bytes laid out in C order from `offset` gives
/// those bytes back, in order: element `k` starts at byte
/// `offset + k * itemsize`.
pub proof fn lemma_gathered_c_order(data: Seq<u8>, shape: Seq<usize>, itemsize: usize, offset: usize)
    requires
        itemsize >= 1,
        offset + shape_product(shape) * itemsize <= data.len(),
        offset + shape_product(shape) * itemsize <= isize::MAX,
    ensures
        gathered(data, layout_of(shape, c_strides_of(shape, itemsize), offset, itemsize)) == data.subrange(
            offset as int,
            offset + shape_product(shape) * itemsize,
        ),
{
    reveal(gathered);
    let st = c_strides_of(shape, itemsize);
    let l = layout_of(shape, st, offset, itemsize);
    let n = shape_product(shape);
    let w = itemsize as int;
    let o = offset as int;
    let want = data.subrange(o, o + n * w);
    crate::strides::lemma_shape_product_nonneg(shape);
    assert(n * w >= 0) by (nonlinear_arith)
        requires
            n >= 0,
            w >= 1,
    ;
    assert forall|q: int| 0 <= q < n * w implies #[trigger] gathered(data, l)[q] == want[q] by {
        let e = q / w;
        let j = q % w;
        vstd::arithmetic::div_mod::lemma_fundamental_div_mod(q, w);
        assert(0 <= e < n) by (nonlinear_arith)
            requires
                q == w * e + j,
                0 <= j < w,
                0 <= q < n * w,
                w >= 1,
        ;
        let idx = c_index(shape, e as nat);
        lemma_c_index(shape, e as nat);
        assert(n * w <= isize::MAX);
        lemma_c_offset(idx, shape, itemsize, st);
        assert(zip_len(idx.len() as int, st.len() as int) == shape.len());
        assert((offset as isize) as int == o);
        assert(nth_offset(l, e as nat) == o + e * w);
        assert(e * w + j == q) by (nonlinear_arith)
            requires
                q == w * e + j,
        ;
    }
    assert(gathered(data, l) =~= want);
}

/// Every element of a fresh C-order layout lies within its bytes: element
/// `k` starts at byte `k * itemsize`, and every partial offset stays
/// within `isize`.
pub proof fn lemma_c_order_readable(shape: Seq<usize>, itemsize: usize)
    requires
        itemsize >= 1,
        shape_product(shape) * itemsize <= isize::MAX,
    ensures
        all_elements_ok(
            layout_of(shape, c_strides_of(shape, itemsize), 0, itemsize),
            (shape_product(shape) * itemsize) as nat,
        ),
{
    reveal(element_ok);
    let st = c_strides_of(shape, itemsize);
    let l = layout_of(shape, st, 0, itemsize);
    let p = shape_product(shape);
    let w = itemsize as int;
    let n = (p * w) as nat;
    crate::strides::lemma_shape_product_nonneg(shape);
    assert forall|k: nat| k < p implies #[trigger] element_ok(l, c_index(l.shape, k), n) by {
        let idx = c_index(shape, k);
        lemma_c_index(shape, k);
        crate::strides::lemma_product_pos_dims(shape);
        lemma_c_offset(idx, shape, itemsize, st);
        assert forall|i: int| 0 <= i < shape.len() implies #[trigger] st[i] == itemsize
            * crate::strides::suffix_product(shape, i + 1) by {
            crate::strides::lemma_c_stride_exact(shape, itemsize, i + 1);
        }
        assert forall|i: int| 0 <= i < shape.len() implies #[trigger] shape[i] <= isize::MAX by {
            crate::strides::lemma_prefix_suffix(shape, i);
            crate::strides::lemma_prefix_pos(shape, i);
            crate::strides::lemma_suffix_pos(shape, i + 1);
            let a = shape_product(shape.take(i));
            let d = shape[i] as int;
            let s = crate::strides::suffix_product(shape, i + 1);
            assert(d <= p * w) by (nonlinear_arith)
                requires
                    a * (d * s) == p,
                    a >= 1,
                    s >= 1,
                    d >= 1,
                    w >= 1,
            ;
        }
        assert forall|j: int| 0 <= j < zip_len(idx.len() as int, st.len() as int) implies {
            &&& isize::MIN <= #[trigger] ((idx[j] as isize) * st[j]) <= isize::MAX
            &&& isize::MIN <= (0usize as isize) + offset_sum(idx, st, j + 1) <= isize::MAX
        } by {
            crate::strides::lemma_offset_sum_c(idx, shape, itemsize, st, j + 1);
            crate::strides::lemma_prefix_suffix(shape, j);
            crate::strides::lemma_prefix_suffix(shape, j + 1);
            crate::strides::lemma_prefix_pos(shape, j);
            crate::strides::lemma_suffix_pos(shape, j + 1);
            let pre = idx.take(j + 1);
            let ps = shape.take(j + 1);
            assert(in_bounds(pre, ps)) by {
                assert forall|i: int| 0 <= i < pre.len() implies #[trigger] pre[i] < ps[i] by {
                    assert(pre[i] == idx[i] && ps[i] == shape[i]);
                }
            }
            crate::strides::lemma_ravel_bound(pre, ps);
            let r = crate::strides::ravel(pre, ps);
            let a1 = shape_product(ps);
            let s1 = crate::strides::suffix_product(shape, j + 1);
            let a0 = shape_product(shape.take(j));
            let d = shape[j] as int;
            let x = idx[j] as int;
            assert(x < d);
            assert((x as isize) as int == x);
            assert(0 <= r * (w * s1) < p * w) by (nonlinear_arith)
                requires
                    0 <= r < a1,
                    a1 * s1 == p,
                    s1 >= 1,
                    w >= 1,
            ;
            assert(0 <= x * (w * s1) < p * w) by (nonlinear_arith)
                requires
                    0 <= x < d,
                    a0 * (d * s1) == p,
                    a0 >= 1,
                    s1 >= 1,
                    w >= 1,
            ;
        }
        assert(offset_fits(idx, st, 0));
        assert(zip_len(idx.len() as int, st.len() as int) == shape.len());
        assert(0 <= k * w);
        assert(k * w + w <= p * w) by (nonlinear_arith)
            requires
                k < p,
                w >= 1,
        ;
    }
}


/// The C-order buffer of `d` and `shape` holding `bytes` (as
/// [`Buffer::from_bytes`] and [`Buffer::to_contiguous`] make it) reads all
/// its elements, and they are `bytes` in order.
pub proof fn lemma_c_buffer_elements(d: DType, shape: Seq<usize>, bytes: Seq<u8>, nb: usize)
    requires
        spec_contiguous_nbytes(shape, spec_itemsize(d) as usize) == Ok::<usize, MohuError>(nb),
        bytes.len() == nb,
        nb <= isize::MAX,
    ensures
        elements_result(BufferView { data: bytes, ..allocated(d, shape, Order::C, nb as nat) }, Ok(bytes)),
{
    let isz = spec_itemsize(d) as usize;
    crate::strides::lemma_shape_product_nonneg(shape);
    if shape.len() == 0 {
        assert(shape_product(shape) == 1);
    } else {
        assert(shape.take(shape.len() as int) =~= shape);
    }
    assert(nb == shape_product(shape) * isz);
    lemma_c_order_readable(shape, isz);
    lemma_gathered_c_order(bytes, shape, isz, 0);
    assert(bytes.subrange(0, nb as int) =~= bytes);
}

/// Bytes handed to [`Buffer::from_bytes`] come back from
/// [`Buffer::to_bytes`]: when `from_bytes(d, shape, bytes)` succeeds, reading
/// the elements of the buffer it returns gives `bytes`.
pub proof fn lemma_from_bytes_round_trip(d: DType, shape: Seq<usize>, bytes: Seq<u8>, b: BufferView)
    requires
        spec_contiguous_nbytes(shape, spec_itemsize(d) as usize) matches Ok(nb) && bytes.len() == nb && b == (
        BufferView { data: bytes, ..allocated(d, shape, Order::C, nb as nat) }),
        bytes.len() <= isize::MAX,
    ensures
        elements_result(b, Ok(bytes)),
{
    let nb = spec_contiguous_nbytes(shape, spec_itemsize(d) as usize)->Ok_0;
    lemma_c_buffer_elements(d, shape, bytes, nb);
}

/// A contiguous copy reads the same elements: when
/// [`Buffer::to_contiguous`] succeeds on `b`, reading the elements of the
/// copy gives the elements of `b`.
pub proof fn lemma_to_contiguous_elements(b: BufferView, c: BufferView)
    requires
        b.layout.itemsize == spec_itemsize(b.dtype),
        readable(b),
        spec_contiguous_nbytes(b.layout.shape, b.layout.itemsize) matches Ok(nb) && c == (BufferView {
            data: gathered(b.data, b.layout),
            ..allocated(b.dtype, b.layout.shape, Order::C, nb as nat)
        }),
        shape_product(b.layout.shape) * b.layout.itemsize <= isize::MAX,
    ensures
        elements_result(c, Ok(gathered(b.data, b.layout))),
{
    let nb = spec_contiguous_nbytes(b.layout.shape, b.layout.itemsize)->Ok_0;
    let g = gathered(b.data, b.layout);
    reveal(gathered);
    crate::strides::lemma_shape_product_nonneg(b.layout.shape);
    let sh = b.layout.shape;
    if sh.len() == 0 {
        assert(shape_product(sh) == 1);
    } else {
        assert(sh.take(sh.len() as int) =~= sh);
    }
    assert(g.len() == nb);
    lemma_c_buffer_elements(b.dtype, sh, g, nb);
}


/// Reshaping keeps the elements: the C-order view of `new_shape` that
/// [`Buffer::reshape`] makes over a C-contiguous layout with as many
/// elements reads the same elements, in the same order.
pub proof fn lemma_reshape_keeps_elements(data: Seq<u8>, l: LayoutView, new_shape: Seq<usize>)
    requires
        c_contiguous(l),
        l.strides.len() == l.shape.len(),
        l.itemsize >= 1,
        shape_product(l.shape) == shape_product(new_shape),
        l.offset + shape_product(l.shape) * l.itemsize <= data.len(),
        l.offset + shape_product(l.shape) * l.itemsize <= isize::MAX,
    ensures
        gathered(data, layout_of(new_shape, c_strides_of(new_shape, l.itemsize), l.offset, l.itemsize))
            == gathered(data, l),
{
    lemma_gathered_c_order(data, new_shape, l.itemsize, l.offset);
    if l.shape.contains(0) {
        let z = choose|i: int| 0 <= i < l.shape.len() && l.shape[i] == 0;
        if shape_product(l.shape) > 0 {
            crate::strides::lemma_product_pos_dims(l.shape);
            assert(l.shape[z] > 0);
        }
        crate::strides::lemma_shape_product_nonneg(l.shape);
        assert(shape_product(l.shape) == 0);
        assert(shape_product(l.shape) * l.itemsize == 0);
        reveal(gathered);
        assert(gathered(data, l).len() == 0);
        assert(gathered(data, l) =~= data.subrange(l.offset as int, l.offset as int));
    } else {
        assert(l.strides =~= c_strides_of(l.shape, l.itemsize));
        assert(l == layout_of(l.shape, c_strides_of(l.shape, l.itemsize), l.offset, l.itemsize));
        lemma_gathered_c_order(data, l.shape, l.itemsize, l.offset);
    }
}


/// Element `k` of bytes laid out in C order from `offset` starts at byte
/// `offset + k * itemsize`.
pub proof fn lemma_c_nth_offset(shape: Seq<usize>, itemsize: usize, offset: usize, k: nat)
    requires
        itemsize >= 1,
        k < shape_product(shape),
        offset + shape_product(shape) * itemsize <= isize::MAX,
    ensures
        nth_offset(layout_of(shape, c_strides_of(shape, itemsize), offset, itemsize), k) == offset + k * itemsize,
{
    let st = c_strides_of(shape, itemsize);
    let idx = c_index(shape, k);
    lemma_c_index(shape, k);
    crate::strides::lemma_shape_product_nonneg(shape);
    assert(shape_product(shape) * itemsize <= isize::MAX);
    lemma_c_offset(idx, shape, itemsize, st);
    assert(zip_len(idx.len() as int, st.len() as int) == shape.len());
    assert((offset as isize) as int == offset as int);
}

/// Writing every element of a C-order layout from `offset` puts the values
/// at bytes `offset ..`, in order, and leaves the other bytes as they were.
pub proof fn lemma_write_c_order(data: Seq<u8>, shape: Seq<usize>, itemsize: usize, offset: usize, values: Seq<u8>)
    requires
        itemsize >= 1,
        values.len() == shape_product(shape) * itemsize,
        offset + shape_product(shape) * itemsize <= data.len(),
        offset + shape_product(shape) * itemsize <= isize::MAX,
    ensures
        scattered(
            data,
            layout_of(shape, c_strides_of(shape, itemsize), offset, itemsize),
            values,
            shape_product(shape) as nat,
        ) == overwrite(data, offset as int, values),
{
    crate::strides::lemma_shape_product_nonneg(shape);
    let n = shape_product(shape) as nat;
    lemma_write_c_order_upto(data, shape, itemsize, offset, values, n);
    assert(values.take(n * itemsize) =~= values);
}

/// The first `m` element writes of [`lemma_write_c_order`] put the first
/// `m` values in place.
proof fn lemma_write_c_order_upto(
    data: Seq<u8>,
    shape: Seq<usize>,
    itemsize: usize,
    offset: usize,
    values: Seq<u8>,
    m: nat,
)
    requires
        itemsize >= 1,
        m <= shape_product(shape),
        values.len() == shape_product(shape) * itemsize,
        offset + shape_product(shape) * itemsize <= data.len(),
        offset + shape_product(shape) * itemsize <= isize::MAX,
    ensures
        scattered(data, layout_of(shape, c_strides_of(shape, itemsize), offset, itemsize), values, m) == overwrite(
            data,
            offset as int,
            values.take(m * itemsize),
        ),
    decreases m,
{
    let l = layout_of(shape, c_strides_of(shape, itemsize), offset, itemsize);
    let w = itemsize as int;
    let n = shape_product(shape);
    if m == 0 {
        assert(overwrite(data, offset as int, values.take(0)) =~= data);
    } else {
        let k = (m - 1) as nat;
        lemma_write_c_order_upto(data, shape, itemsize, offset, values, k);
        lemma_c_nth_offset(shape, itemsize, offset, k);
        assert(k * w + w == m * w) by (nonlinear_arith)
            requires
                k == m - 1,
        ;
        assert(m * w <= n * w) by (nonlinear_arith)
            requires
                m <= n,
                w >= 1,
        ;
        assert(k * w >= 0) by (nonlinear_arith)
            requires
                w >= 1,
        ;
        let prev = overwrite(data, offset as int, values.take(k * w));
        let piece = element_of(values, itemsize as nat, k);
        assert(scattered(data, l, values, k) == prev);
        assert(scattered(data, l, values, m) == overwrite(prev, nth_offset(l, k), piece));
        assert(nth_offset(l, k) == offset + k * w);
        assert(piece.len() == w);
        assert(overwrite(prev, offset + k * w, piece) =~= overwrite(data, offset as int, values.take(m * w)));
    }
}

/// Reading back the elements of a C-order layout from `offset` after
/// writing every one of them gives the written values.
pub proof fn lemma_read_after_whole_write(
    data: Seq<u8>,
    shape: Seq<usize>,
    itemsize: usize,
    offset: usize,
    values: Seq<u8>,
)
    requires
        itemsize >= 1,
        values.len() == shape_product(shape) * itemsize,
        offset + shape_product(shape) * itemsize <= data.len(),
        offset + shape_product(shape) * itemsize <= isize::MAX,
    ensures
        ({
            let l = layout_of(shape, c_strides_of(shape, itemsize), offset, itemsize);
            gathered(scattered(data, l, values, shape_product(shape) as nat), l) == values
        }),
{
    let l = layout_of(shape, c_strides_of(shape, itemsize), offset, itemsize);
    lemma_write_c_order(data, shape, itemsize, offset, values);
    let w = overwrite(data, offset as int, values);
    lemma_gathered_c_order(w, shape, itemsize, offset);
    assert(w.subrange(offset as int, offset + shape_product(shape) * itemsize) =~= values);
}


// ─── Typed element access for integer element types ─────────────────────────

impl Buffer {
    /// The element at `indices` as a `T`, its bytes read least significant
    /// first when `little`: `DTypeMismatch` when the buffer is not of dtype
    /// `T`, else as [`Buffer::get_bytes`] does for the position.
    pub fn get_with_byte_order<T: IntScalar>(&self, indices: &[usize], little: bool) -> (r: MohuResult<T>)
        ensures
            self@.dtype != T::tag() ==> (r matches Err(MohuError::DTypeMismatch { expected, got }) && expected@
                == spec_numpy_str(T::tag()) && got@ == spec_numpy_str(self@.dtype)),
            self@.dtype == T::tag() ==> {
                &&& r matches Err(e) ==> locate_outcome(self@.layout, indices@, self@.data.len(), Err(e))
                &&& r matches Ok(x) ==> locate_outcome(
                    self@.layout,
                    indices@,
                    self@.data.len(),
                    Ok(element_offset(self@.layout, indices@) as usize),
                ) && held(
                    x,
                    self@.data.subrange(
                        element_offset(self@.layout, indices@),
                        element_offset(self@.layout, indices@) + self@.layout.itemsize,
                    ),
                    little,
                )
            },
    {
        let tag = T::dtype();
        if tag != self.dtype() {
            return Err(MohuError::DTypeMismatch { expected: tag.to_string(), got: self.dtype().to_string() });
        }
        let _isz = self.itemsize();
        let _bits = T::bits();
        let b = self.get_bytes(indices)?;
        proof {
            reveal(element_ok);
            assert(b@.len() == spec_itemsize(tag));
        }
        let u = read_uint(b.as_slice(), 0, tag.itemsize(), little);
        proof {
            assert(b@.subrange(0, b@.len() as int) =~= b@);
        }
        Ok(T::from_pattern(u))
    }

    /// The element at `indices` as a `T`, read in the host's byte order;
    /// fails as [`Buffer::get_with_byte_order`] describes.
    pub fn get<T: IntScalar>(&self, indices: &[usize]) -> (r: MohuResult<T>)
        ensures
            self@.dtype != T::tag() ==> (r matches Err(MohuError::DTypeMismatch { expected, got }) && expected@
                == spec_numpy_str(T::tag()) && got@ == spec_numpy_str(self@.dtype)),
            self@.dtype == T::tag() ==> {
                &&& r matches Err(e) ==> locate_outcome(self@.layout, indices@, self@.data.len(), Err(e))
                &&& r matches Ok(x) ==> locate_outcome(
                    self@.layout,
                    indices@,
                    self@.data.len(),
                    Ok(element_offset(self@.layout, indices@) as usize),
                ) && ({
                    let b = self@.data.subrange(
                        element_offset(self@.layout, indices@),
                        element_offset(self@.layout, indices@) + self@.layout.itemsize,
                    );
                    held(x, b, true) || held(x, b, false)
                })
            },
    {
        let little = crate::compat::ByteOrder::host_is_little_endian();
        self.get_with_byte_order(indices, little)
    }

    /// Writes `value` at `indices`, its bytes least significant first when
    /// `little`: `DTypeMismatch` when the buffer is not of dtype `T`, else as
    /// [`Buffer::set_bytes`] does with the bytes of `value`.
    pub fn set_with_byte_order<T: IntScalar>(&mut self, indices: &[usize], value: T, little: bool) -> (r: MohuResult<
        (),
    >)
        ensures
            old(self)@.dtype != T::tag() ==> (r matches Err(MohuError::DTypeMismatch { expected, got }) && expected@
                == spec_numpy_str(T::tag()) && got@ == spec_numpy_str(old(self)@.dtype) && final(self)@ == old(
                self,
            )@),
            old(self)@.dtype == T::tag() ==> {
                &&& old(self)@.flags & 1u8 != 1u8 ==> r == Err::<(), MohuError>(MohuError::ReadOnly)
                &&& old(self)@.flags & 1u8 == 1u8 ==> (r matches Err(e) ==> locate_outcome(
                    old(self)@.layout,
                    indices@,
                    old(self)@.data.len(),
                    Err(e),
                ))
                &&& old(self)@.flags & 1u8 == 1u8 && r is Ok ==> locate_outcome(
                    old(self)@.layout,
                    indices@,
                    old(self)@.data.len(),
                    Ok(element_offset(old(self)@.layout, indices@) as usize),
                )
                &&& r is Ok ==> final(self)@ == (BufferView {
                    data: overwrite(
                        old(self)@.data,
                        element_offset(old(self)@.layout, indices@),
                        pattern_bytes(pattern64(value.value()), spec_itemsize(T::tag()), little),
                    ),
                    ..old(self)@
                })
                &&& r is Err ==> final(self)@ == old(self)@
            },
    {
        let tag = T::dtype();
        if tag != self.dtype() {
            return Err(MohuError::DTypeMismatch { expected: tag.to_string(), got: self.dtype().to_string() });
        }
        let _isz = self.itemsize();
        let _bits = T::bits();
        let b = bytes_of_pattern(value.to_u64_bits(), tag.itemsize(), little);
        self.set_bytes(indices, b.as_slice())
    }

    /// Writes `value` at `indices` in the host's byte order; fails as
    /// [`Buffer::set_with_byte_order`] describes.
    pub fn set<T: IntScalar>(&mut self, indices: &[usize], value: T) -> (r: MohuResult<()>)
        ensures
            old(self)@.dtype != T::tag() ==> (r matches Err(MohuError::DTypeMismatch { expected, got }) && expected@
                == spec_numpy_str(T::tag()) && got@ == spec_numpy_str(old(self)@.dtype) && final(self)@ == old(
                self,
            )@),
            old(self)@.dtype == T::tag() ==> {
                &&& old(self)@.flags & 1u8 != 1u8 ==> r == Err::<(), MohuError>(MohuError::ReadOnly)
                &&& old(self)@.flags & 1u8 == 1u8 ==> (r matches Err(e) ==> locate_outcome(
                    old(self)@.layout,
                    indices@,
                    old(self)@.data.len(),
                    Err(e),
                ))
                &&& old(self)@.flags & 1u8 == 1u8 && r is Ok ==> locate_outcome(
                    old(self)@.layout,
                    indices@,
                    old(self)@.data.len(),
                    Ok(element_offset(old(self)@.layout, indices@) as usize),
                )
                &&& r is Ok ==> (final(self)@ == (BufferView {
                    data: overwrite(
                        old(self)@.data,
                        element_offset(old(self)@.layout, indices@),
                        pattern_bytes(pattern64(value.value()), spec_itemsize(T::tag()), true),
                    ),
                    ..old(self)@
                }) || final(self)@ == (BufferView {
                    data: overwrite(
                        old(self)@.data,
                        element_offset(old(self)@.layout, indices@),
                        pattern_bytes(pattern64(value.value()), spec_itemsize(T::tag()), false),
                    ),
                    ..old(self)@
                }))
                &&& r is Err ==> final(self)@ == old(self)@
            },
    {
        let little = crate::compat::ByteOrder::host_is_little_endian();
        self.set_with_byte_order(indices, value, little)
    }

    /// All elements as `T`s in C order, their bytes read least significant
    /// first when `little`: `DTypeMismatch` when the buffer is not of dtype
    /// `T`, else a failure to read the elements, else the elements held in
    /// them.
    pub fn to_vec_with_byte_order<T: IntScalar>(&self, little: bool) -> (r: MohuResult<Vec<T>>)
        ensures
            self@.dtype != T::tag() ==> (r matches Err(MohuError::DTypeMismatch { expected, got }) && expected@
                == spec_numpy_str(T::tag()) && got@ == spec_numpy_str(self@.dtype)),
            self@.dtype == T::tag() && !readable(self@) ==> (r matches Err(e) && read_failure(self@, Err(e))),
            self@.dtype == T::tag() && readable(self@) ==> (r matches Ok(v) && elements_held(
                gathered(self@.data, self@.layout),
                spec_itemsize(T::tag()),
                little,
                v@,
            )),
    {
        let tag = T::dtype();
        if tag != self.dtype() {
            return Err(MohuError::DTypeMismatch { expected: tag.to_string(), got: self.dtype().to_string() });
        }
        let _isz = self.itemsize();
        let _bits = T::bits();
        let g = match self.to_bytes() {
            Ok(g) => g,
            Err(e) => return Err(e),
        };
        let isz = tag.itemsize();
        let n = g.len() / isz;
        proof {
            reveal(gathered);
            crate::strides::lemma_shape_product_nonneg(self@.layout.shape);
            vstd::arithmetic::div_mod::lemma_div_by_multiple(shape_product(self@.layout.shape), isz as int);
            assert(g@.len() == n * isz);
        }
        Ok(decode_all(g.as_slice(), n, isz, little))
    }

    /// All elements as `T`s in C order, read in the host's byte order; fails
    /// as [`Buffer::to_vec_with_byte_order`] describes.
    pub fn to_vec<T: IntScalar>(&self) -> (r: MohuResult<Vec<T>>)
        ensures
            self@.dtype != T::tag() ==> (r matches Err(MohuError::DTypeMismatch { expected, got }) && expected@
                == spec_numpy_str(T::tag()) && got@ == spec_numpy_str(self@.dtype)),
            self@.dtype == T::tag() && !readable(self@) ==> (r matches Err(e) && read_failure(self@, Err(e))),
            self@.dtype == T::tag() && readable(self@) ==> (r matches Ok(v) && (elements_held(
                gathered(self@.data, self@.layout),
                spec_itemsize(T::tag()),
                true,
                v@,
            ) || elements_held(gathered(self@.data, self@.layout), spec_itemsize(T::tag()), false, v@))),
    {
        let little = crate::compat::ByteOrder::host_is_little_endian();
        self.to_vec_with_byte_order(little)
    }

    /// A one-dimensional C-order buffer of the values `data`, their bytes
    /// least significant first when `little`; fails as
    /// [`Buffer::from_bytes`] does for shape `[data.len()]`.
    #[verifier::spinoff_prover]
    pub fn from_slice_with_byte_order<T: IntScalar>(data: &[T], little: bool) -> (r: MohuResult<Buffer>)
        requires
            data@.len() * spec_itemsize(T::tag()) <= usize::MAX,
        ensures
            spec_contiguous_nbytes(seq![data@.len() as usize], spec_itemsize(T::tag()) as usize) matches Err(e)
                ==> r == Err::<Buffer, MohuError>(e),
            spec_contiguous_nbytes(seq![data@.len() as usize], spec_itemsize(T::tag()) as usize) matches Ok(nb) ==> {
                let sh = seq![data@.len() as usize];
                let isz = spec_itemsize(T::tag()) as usize;
                let st = order_strides(T::tag(), sh, Order::C);
                &&& r is Ok <==> custom_ok(sh, st, isz)
                &&& r matches Ok(b) ==> b@ == BufferView {
                    data: encoded(data@, isz as nat, little),
                    ..allocated(T::tag(), sh, Order::C, nb as nat)
                }
                &&& r matches Err(e) ==> custom_error(e, sh, st, isz)
            },
    {
        let tag = T::dtype();
        let _bits = T::bits();
        let isz = tag.itemsize();
        let bytes = encode_all(data, isz, little);
        let shape = [data.len()];
        proof {
            let sh = seq![data@.len() as usize];
            assert(shape@ =~= sh);
            assert(sh.drop_last() =~= Seq::<usize>::empty());
            assert(shape_product(sh) == data@.len());
            assert(bytes@.len() == data@.len() * isz);
            if spec_contiguous_nbytes(sh, isz) is Ok {
                assert(spec_shape_size(sh) == Ok::<usize, MohuError>(data@.len() as usize));
                assert(spec_contiguous_nbytes(sh, isz) == Ok::<usize, MohuError>(bytes@.len() as usize));
            }
        }
        Buffer::from_bytes(tag, &shape, bytes)
    }

    /// A one-dimensional C-order buffer of the values `data`, in the host's
    /// byte order; fails as [`Buffer::from_slice_with_byte_order`] describes.
    pub fn from_slice<T: IntScalar>(data: &[T]) -> (r: MohuResult<Buffer>)
        requires
            data@.len() * spec_itemsize(T::tag()) <= usize::MAX,
        ensures
            spec_contiguous_nbytes(seq![data@.len() as usize], spec_itemsize(T::tag()) as usize) matches Err(e)
                ==> r == Err::<Buffer, MohuError>(e),
            spec_contiguous_nbytes(seq![data@.len() as usize], spec_itemsize(T::tag()) as usize) matches Ok(nb) ==> {
                let sh = seq![data@.len() as usize];
                let isz = spec_itemsize(T::tag()) as usize;
                let st = order_strides(T::tag(), sh, Order::C);
                &&& r is Ok <==> custom_ok(sh, st, isz)
                &&& r matches Ok(b) ==> (b@ == BufferView {
                    data: encoded(data@, isz as nat, true),
                    ..allocated(T::tag(), sh, Order::C, nb as nat)
                } || b@ == BufferView {
                    data: encoded(data@, isz as nat, false),
                    ..allocated(T::tag(), sh, Order::C, nb as nat)
                })
                &&& r matches Err(e) ==> custom_error(e, sh, st, isz)
            },
    {
        let little = crate::compat::ByteOrder::host_is_little_endian();
        Buffer::from_slice_with_byte_order(data, little)
    }

    /// A one-dimensional C-order buffer of the values `data`, in the host's
    /// byte order; fails as [`Buffer::from_slice`] does.
    pub fn from_vec<T: IntScalar>(data: Vec<T>) -> (r: MohuResult<Buffer>)
        requires
            data@.len() * spec_itemsize(T::tag()) <= usize::MAX,
        ensures
            spec_contiguous_nbytes(seq![data@.len() as usize], spec_itemsize(T::tag()) as usize) matches Err(e)
                ==> r == Err::<Buffer, MohuError>(e),
            spec_contiguous_nbytes(seq![data@.len() as usize], spec_itemsize(T::tag()) as usize) matches Ok(nb) ==> {
                let sh = seq![data@.len() as usize];
                let isz = spec_itemsize(T::tag()) as usize;
                let st = order_strides(T::tag(), sh, Order::C);
                &&& r is Ok <==> custom_ok(sh, st, isz)
                &&& r matches Ok(b) ==> (b@ == BufferView {
                    data: encoded(data@, isz as nat, true),
                    ..allocated(T::tag(), sh, Order::C, nb as nat)
                } || b@ == BufferView {
                    data: encoded(data@, isz as nat, false),
                    ..allocated(T::tag(), sh, Order::C, nb as nat)
                })
                &&& r matches Err(e) ==> custom_error(e, sh, st, isz)
            },
    {
        Buffer::from_slice(data.as_slice())
    }
}

} // verus!

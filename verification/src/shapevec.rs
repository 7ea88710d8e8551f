//! Small inline vectors of dimension sizes and byte strides.
//!
//! Both types keep their elements in a `smallvec::SmallVec` with room for
//! eight items inline; the library reads and builds them through the few
//! operations below.
use vstd::prelude::*;
use smallvec::SmallVec;

verus! {

/// A stack-allocated list of dimension sizes (inline for up to 8 axes).
#[verifier::external_body]
#[derive(Debug)]
pub struct ShapeVec {
    inner: SmallVec<[usize; 8]>,
}

/// A stack-allocated list of byte strides (inline for up to 8 axes).
#[verifier::external_body]
#[derive(Debug)]
pub struct StrideVec {
    inner: SmallVec<[isize; 8]>,
}

/// The items held by a `ShapeVec`, in order.
pub uninterp spec fn shape_items(v: ShapeVec) -> Seq<usize>;

/// The items held by a `StrideVec`, in order.
pub uninterp spec fn stride_items(v: StrideVec) -> Seq<isize>;

impl View for ShapeVec {
    type V = Seq<usize>;

    open spec fn view(&self) -> Seq<usize> {
        shape_items(*self)
    }
}

impl View for StrideVec {
    type V = Seq<isize>;

    open spec fn view(&self) -> Seq<isize> {
        stride_items(*self)
    }
}

impl ShapeVec {
    /// An empty list (`SmallVec::new`).
    #[verifier::external_body]
    pub fn new() -> (r: ShapeVec)
        ensures
            shape_items(r) == Seq::<usize>::empty(),
    {
        ShapeVec { inner: SmallVec::new() }
    }

    /// Moves the items of a `Vec` into a new list (`SmallVec::from_vec`).
    #[verifier::external_body]
    pub fn from_vec(v: Vec<usize>) -> (r: ShapeVec)
        ensures
            shape_items(r) == v@,
    {
        ShapeVec { inner: SmallVec::from_vec(v) }
    }

    /// Copies the items of a slice into a new list (`SmallVec::from_slice`).
    #[verifier::external_body]
    pub fn from_slice(s: &[usize]) -> (r: ShapeVec)
        ensures
            shape_items(r) == s@,
    {
        ShapeVec { inner: SmallVec::from_slice(s) }
    }

    /// The items as a slice (`SmallVec::as_slice`).
    #[verifier::external_body]
    pub fn as_slice(&self) -> (r: &[usize])
        ensures
            r@ == shape_items(*self),
    {
        self.inner.as_slice()
    }

    /// Overwrites the item at `i` (indexing into `SmallVec` mutably).
    #[verifier::external_body]
    pub fn set(&mut self, i: usize, v: usize)
        requires
            i < old(self)@.len(),
        ensures
            shape_items(*final(self)) == shape_items(*old(self)).update(i as int, v),
    {
        self.inner[i] = v;
    }

    /// Number of items.
    pub fn len(&self) -> (r: usize)
        ensures
            r == self@.len(),
    {
        self.as_slice().len()
    }
}

impl Clone for ShapeVec {
    fn clone(&self) -> (r: Self)
        ensures
            r@ == self@,
    {
        ShapeVec::from_slice(self.as_slice())
    }
}

impl StrideVec {
    /// An empty list (`SmallVec::new`).
    #[verifier::external_body]
    pub fn new() -> (r: StrideVec)
        ensures
            stride_items(r) == Seq::<isize>::empty(),
    {
        StrideVec { inner: SmallVec::new() }
    }

    /// Moves the items of a `Vec` into a new list (`SmallVec::from_vec`).
    #[verifier::external_body]
    pub fn from_vec(v: Vec<isize>) -> (r: StrideVec)
        ensures
            stride_items(r) == v@,
    {
        StrideVec { inner: SmallVec::from_vec(v) }
    }

    /// Copies the items of a slice into a new list (`SmallVec::from_slice`).
    #[verifier::external_body]
    pub fn from_slice(s: &[isize]) -> (r: StrideVec)
        ensures
            stride_items(r) == s@,
    {
        StrideVec { inner: SmallVec::from_slice(s) }
    }

    /// The items as a slice (`SmallVec::as_slice`).
    #[verifier::external_body]
    pub fn as_slice(&self) -> (r: &[isize])
        ensures
            r@ == stride_items(*self),
    {
        self.inner.as_slice()
    }

    /// Number of items.
    pub fn len(&self) -> (r: usize)
        ensures
            r == self@.len(),
    {
        self.as_slice().len()
    }
}

impl Clone for StrideVec {
    fn clone(&self) -> (r: Self)
        ensures
            r@ == self@,
    {
        StrideVec::from_slice(self.as_slice())
    }
}

} // verus!

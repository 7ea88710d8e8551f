//! The marker that closes the element traits to the types of this crate.
use vstd::prelude::*;

verus! {

/// Implemented only by the element types of this crate.
pub trait Sealed {}

} // verus!

//! Data types, type promotion, memory layout and stride arithmetic for an
//! N-dimensional array library, with their contracts proved by Verus.
pub mod alloc_stats;
pub mod buffer;
pub mod cast;
pub mod compat;
pub mod context;
pub mod dlpack;
pub mod dtype;
pub mod error;
pub mod iinfo;
pub mod layout;
pub mod ops;
pub mod pool;
pub mod promote;
pub mod random;
pub mod scalar;
mod sealed;
pub mod shapevec;
pub mod strides;
pub mod test_utils;
pub mod text;

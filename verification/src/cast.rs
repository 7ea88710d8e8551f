//! The checks of scalar and slice casts between element types. The
//! conversion of each value goes through `f64`, which stands outside this
//! library; what is decided before it, whether the cast may happen at all,
//! is here.
use vstd::prelude::*;
use crate::dtype::{spec_numpy_str, DType};
use crate::error::{MohuError, MohuResult};
use crate::promote::{can_cast, spec_can_cast, CastMode};
use crate::text::string_of;

verus! {

/// The reason an `InvalidCast` of a scalar or a slice gives for a cast that
/// `mode` refuses.
pub open spec fn cast_not_allowed_text(mode: CastMode) -> Seq<char> {
    match mode {
        CastMode::Safe => "Safe cast is not allowed"@,
        CastMode::SameKind => "SameKind cast is not allowed"@,
        CastMode::Unsafe => "Unsafe cast is not allowed"@,
    }
}

/// Checks a cast of a value of dtype `from` to dtype `to` under `mode`:
/// `Ok` exactly when `mode` permits it, else `InvalidCast` naming both
/// dtypes and the mode.
pub fn check_scalar_cast(from: DType, to: DType, mode: CastMode) -> (r: MohuResult<()>)
    ensures
        r is Ok <==> spec_can_cast(from, to, mode),
        r matches Err(e) ==> (e matches MohuError::InvalidCast { from: f, to: t, reason } && f@ == spec_numpy_str(
            from,
        ) && t@ == spec_numpy_str(to) && reason@ == cast_not_allowed_text(mode)),
{
    if !can_cast(from, to, mode) {
        let reason = match mode {
            CastMode::Safe => string_of("Safe cast is not allowed"),
            CastMode::SameKind => string_of("SameKind cast is not allowed"),
            CastMode::Unsafe => string_of("Unsafe cast is not allowed"),
        };
        proof {
            reveal_strlit("Safe cast is not allowed");
            reveal_strlit("SameKind cast is not allowed");
            reveal_strlit("Unsafe cast is not allowed");
        }
        return Err(MohuError::InvalidCast { from: from.to_string(), to: to.to_string(), reason });
    }
    Ok(())
}

/// Checks a cast of `src_len` values of dtype `from` into `dst_len` slots of
/// dtype `to` under `mode`: `ShapeMismatch` (the two lengths, each as a
/// one-axis shape) when the lengths differ, else as [`check_scalar_cast`].
pub fn check_slice_cast(from: DType, to: DType, src_len: usize, dst_len: usize, mode: CastMode) -> (r: MohuResult<
    (),
>)
    ensures
        src_len != dst_len ==> (r matches Err(MohuError::ShapeMismatch { expected, got }) && expected@ == seq![
            src_len,
        ] && got@ == seq![dst_len]),
        src_len == dst_len ==> (r is Ok <==> spec_can_cast(from, to, mode)),
        src_len == dst_len ==> (r matches Err(e) ==> (e matches MohuError::InvalidCast { from: f, to: t, reason }
            && f@ == spec_numpy_str(from) && t@ == spec_numpy_str(to) && reason@ == cast_not_allowed_text(mode))),
{
    if src_len != dst_len {
        return Err(MohuError::ShapeMismatch { expected: vec![src_len], got: vec![dst_len] });
    }
    check_scalar_cast(from, to, mode)
}

} // verus!

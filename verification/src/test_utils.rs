//! Checks for code that returns `MohuResult`, each stating what it checks as
//! its precondition and handing back the value or error it found.
use vstd::prelude::*;
use crate::layout::usize_slices_equal;
use crate::error::{depth_of, error_code, error_kind, root_of, ErrorCode, ErrorKind, MohuError, MohuResult};

verus! {

/// The error of a result that must be `Err`.
pub fn assert_err<T>(result: MohuResult<T>, context: &str) -> (e: MohuError)
    requires
        result is Err,
    ensures
        result == Err::<T, MohuError>(e),
{
    match result {
        Err(e) => e,
        Ok(_) => vstd::pervasive::unreached(),
    }
}

/// The value of a result that must be `Ok`.
pub fn assert_ok<T>(result: MohuResult<T>, context: &str) -> (v: T)
    requires
        result is Ok,
    ensures
        result == Ok::<T, MohuError>(v),
{
    match result {
        Ok(v) => v,
        Err(_) => vstd::pervasive::unreached(),
    }
}

/// The error of a result that must fail with a root cause of code `expected_code`.
pub fn assert_err_code<T>(result: MohuResult<T>, expected_code: ErrorCode, context: &str) -> (e: MohuError)
    requires
        result matches Err(e) && error_code(root_of(e)) == expected_code,
    ensures
        result == Err::<T, MohuError>(e),
{
    assert_err(result, context)
}

/// The error of a result that must fail with a root cause of kind `expected_kind`.
pub fn assert_err_kind<T>(result: MohuResult<T>, expected_kind: ErrorKind, context: &str) -> (e: MohuError)
    requires
        result matches Err(e) && error_kind(root_of(e)) == expected_kind,
    ensures
        result == Err::<T, MohuError>(e),
{
    assert_err(result, context)
}

/// Checks that a result fails with a root cause `ShapeMismatch` between
/// exactly the given shapes: reads the root cause and compares its shapes,
/// which the precondition guarantees to match.
pub fn assert_shape_err<T>(result: MohuResult<T>, expected_shape: &[usize], got_shape: &[usize])
    requires
        result matches Err(e) && root_of(e) matches MohuError::ShapeMismatch { expected, got } && expected@
            == expected_shape@ && got@ == got_shape@,
{
    let e = assert_err(result, "expected ShapeMismatch");
    match e.root_cause() {
        MohuError::ShapeMismatch { expected, got } => {
            if !usize_slices_equal(expected.as_slice(), expected_shape) || !usize_slices_equal(
                got.as_slice(),
                got_shape,
            ) {
                vstd::pervasive::unreached::<()>()
            }
        },
        _ => vstd::pervasive::unreached::<()>(),
    }
}

/// The error of a result that must fail under exactly `depth` context layers.
pub fn assert_chain_depth<T>(result: MohuResult<T>, depth: usize, context: &str) -> (e: MohuError)
    requires
        result matches Err(e) && depth_of(e) == depth,
    ensures
        result == Err::<T, MohuError>(e),
{
    assert_err(result, context)
}

} // verus!

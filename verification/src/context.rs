//! Attaching context to failures: wrapping the error of a `Result` in a
//! `Context` layer, or turning a missing `Option` value into an error.
use vstd::prelude::*;
use vstd::string::StringExecFns;
use crate::error::{MohuError, MohuResult};
use crate::text::{decimal, push_decimal, string_of};

verus! {

/// Adds context to a fallible value.
pub trait ResultExt<T>: Sized {
    /// Attaches the text `ctx` to a failure.
    fn context(self, ctx: String) -> (r: MohuResult<T>);

    /// Attaches the text computed by `f` to a failure; `f` is called only
    /// on a failure.
    fn with_context<F: FnOnce() -> String>(self, f: F) -> (r: MohuResult<T>)
        requires
            f.requires(()),
    ;

    /// Attaches the name of the operation that failed.
    fn op(self, name: &'static str) -> (r: MohuResult<T>);

    /// Attaches the axis on which the failure happened.
    fn axis(self, ax: usize) -> (r: MohuResult<T>);

    /// Turns a missing value into `err`; an error keeps its own.
    fn ok_or_mohu(self, err: MohuError) -> (r: MohuResult<T>);
}

/// The context text of a failed operation `name`.
pub open spec fn op_text(name: Seq<char>) -> Seq<char> {
    "operation '"@ + name + "'"@
}

/// The context text of a failure on axis `ax`.
pub open spec fn axis_text(ax: nat) -> Seq<char> {
    "axis "@ + decimal(ax)
}

/// The message of a missing value in operation `name`.
pub open spec fn none_op_text(name: Seq<char>) -> Seq<char> {
    "unexpected None in operation '"@ + name + "'"@
}

/// The message of a missing value on axis `ax`.
pub open spec fn none_axis_text(ax: nat) -> Seq<char> {
    "unexpected None on axis "@ + decimal(ax)
}

/// `r` is `res` with an error wrapped in a `Context` layer whose text is
/// `t`: a value passes through unchanged.
pub open spec fn wrapped_with<T>(res: MohuResult<T>, r: MohuResult<T>, t: Seq<char>) -> bool {
    match res {
        Ok(v) => r == Ok::<T, MohuError>(v),
        Err(e) => r matches Err(MohuError::Context { context, source }) && context@ == t && *source == e,
    }
}

/// `r` is the value of `o`, or an `Internal` error with message `t` when
/// `o` is `None`.
pub open spec fn missing_as<T>(o: Option<T>, r: MohuResult<T>, t: Seq<char>) -> bool {
    match o {
        Some(v) => r == Ok::<T, MohuError>(v),
        None => r matches Err(MohuError::Internal(m)) && m@ == t,
    }
}

/// `r` is `res` with an error wrapped in a `Context` layer whose text is a
/// result of `f`: a value passes through unchanged.
pub open spec fn wrapped_by<T, F: FnOnce() -> String>(res: MohuResult<T>, r: MohuResult<T>, f: F) -> bool {
    match res {
        Ok(v) => r == Ok::<T, MohuError>(v),
        Err(e) => r matches Err(MohuError::Context { context, source }) && f.ensures((), context) && *source == e,
    }
}

/// Wraps `e` in a `Context` layer with text `context`.
fn wrap(e: MohuError, context: String) -> (r: MohuError)
    ensures
        r matches MohuError::Context { context: c, source } && c == context && *source == e,
{
    MohuError::Context { context, source: Box::new(e) }
}

impl<T> ResultExt<T> for Result<T, MohuError> {
    fn context(self, ctx: String) -> (r: MohuResult<T>)
        ensures
            wrapped_with(self, r, ctx@),
    {
        match self {
            Ok(v) => Ok(v),
            Err(e) => Err(wrap(e, ctx)),
        }
    }

    fn with_context<F: FnOnce() -> String>(self, f: F) -> (r: MohuResult<T>)
        ensures
            wrapped_by(self, r, f),
    {
        match self {
            Ok(v) => Ok(v),
            Err(e) => {
                let c = f();
                Err(wrap(e, c))
            },
        }
    }

    fn op(self, name: &'static str) -> (r: MohuResult<T>)
        ensures
            wrapped_with(self, r, op_text(name@)),
    {
        match self {
            Ok(v) => Ok(v),
            Err(e) => {
                let mut c = string_of("operation '");
                c.append(name);
                c.append("'");
                proof {
                    reveal_strlit("operation '");
                    reveal_strlit("'");
                }
                Err(wrap(e, c))
            },
        }
    }

    fn axis(self, ax: usize) -> (r: MohuResult<T>)
        ensures
            wrapped_with(self, r, axis_text(ax as nat)),
    {
        match self {
            Ok(v) => Ok(v),
            Err(e) => {
                let mut c = string_of("axis ");
                push_decimal(&mut c, ax as u64);
                proof {
                    reveal_strlit("axis ");
                }
                Err(wrap(e, c))
            },
        }
    }

    fn ok_or_mohu(self, err: MohuError) -> (r: MohuResult<T>)
        ensures
            r == self,
    {
        self
    }
}

impl<T> ResultExt<T> for Option<T> {
    fn context(self, ctx: String) -> (r: MohuResult<T>)
        ensures
            missing_as(self, r, ctx@),
    {
        match self {
            Some(v) => Ok(v),
            None => Err(MohuError::Internal(ctx)),
        }
    }

    fn with_context<F: FnOnce() -> String>(self, f: F) -> (r: MohuResult<T>)
        ensures
            self matches Some(v) ==> r == Ok::<T, MohuError>(v),
            self is None ==> (r matches Err(MohuError::Internal(m)) && f.ensures((), m)),
    {
        match self {
            Some(v) => Ok(v),
            None => Err(MohuError::Internal(f())),
        }
    }

    fn op(self, name: &'static str) -> (r: MohuResult<T>)
        ensures
            missing_as(self, r, none_op_text(name@)),
    {
        match self {
            Some(v) => Ok(v),
            None => {
                let mut m = string_of("unexpected None in operation '");
                m.append(name);
                m.append("'");
                proof {
                    reveal_strlit("unexpected None in operation '");
                    reveal_strlit("'");
                }
                Err(MohuError::Internal(m))
            },
        }
    }

    fn axis(self, ax: usize) -> (r: MohuResult<T>)
        ensures
            missing_as(self, r, none_axis_text(ax as nat)),
    {
        match self {
            Some(v) => Ok(v),
            None => {
                let mut m = string_of("unexpected None on axis ");
                push_decimal(&mut m, ax as u64);
                proof {
                    reveal_strlit("unexpected None on axis ");
                }
                Err(MohuError::Internal(m))
            },
        }
    }

    fn ok_or_mohu(self, err: MohuError) -> (r: MohuResult<T>)
        ensures
            self matches Some(v) ==> r == Ok::<T, MohuError>(v),
            self is None ==> r == Err::<T, MohuError>(err),
    {
        match self {
            Some(v) => Ok(v),
            None => Err(err),
        }
    }
}

} // verus!

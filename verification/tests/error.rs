use mohu::context::ResultExt;
use mohu::error::{python_exception_kind, ErrorCode, ErrorKind, MohuError, MohuResult, MultiError, PyExceptionKind, Severity};
use mohu::test_utils::{assert_chain_depth, assert_err, assert_err_code, assert_err_kind, assert_ok, assert_shape_err};

fn wrapped(e: MohuError, layers: usize) -> MohuError {
    let mut e = e;
    for i in 0..layers {
        e = MohuError::Context { context: format!("layer {i}"), source: Box::new(e) };
    }
    e
}

#[test]
fn code_numbers_and_domains() {
    assert_eq!(ErrorCode::ShapeMismatch.as_u32(), 1000);
    assert_eq!(ErrorCode::ShapeMismatch.domain(), "shape");
    assert_eq!(ErrorCode::UnknownDType.as_u32(), 2004);
    assert_eq!(ErrorCode::UnknownDType.domain(), "dtype");
    assert_eq!(ErrorCode::DLPackInvalid.as_u32(), 7004);
    assert_eq!(ErrorCode::DLPackInvalid.domain(), "dlpack");
    assert_eq!(ErrorCode::Internal.as_u32(), 10002);
    assert_eq!(ErrorCode::Internal.domain(), "general");
    assert!(ErrorCode::ZeroSliceStep.is_index());
    assert!(ErrorCode::ReadOnly.is_buffer());
    assert!(ErrorCode::SingularMatrix.is_compute());
    assert!(ErrorCode::NpyHeaderError.is_io());
    assert!(ErrorCode::ArrowIpc.is_arrow());
    assert!(ErrorCode::PythonNoBuffer.is_python());
    assert!(ErrorCode::DLPackNullPointer.is_dlpack());
    assert!(!ErrorCode::DLPackNullPointer.is_shape());
    assert!(ErrorCode::InvalidCast.is_dtype());
}

#[test]
fn kinds_of_codes() {
    assert_eq!(ErrorKind::from(ErrorCode::ShapeMismatch), ErrorKind::Usage);
    assert_eq!(ErrorKind::from(ErrorCode::AllocationFailed), ErrorKind::System);
    assert_eq!(ErrorKind::from(ErrorCode::ReadOnly), ErrorKind::Usage);
    assert_eq!(ErrorKind::from(ErrorCode::SingularMatrix), ErrorKind::Runtime);
    assert_eq!(ErrorKind::from(ErrorCode::DLPackNullPointer), ErrorKind::Internal);
    assert_eq!(ErrorKind::from(ErrorCode::DLPackUnsupportedDevice), ErrorKind::Usage);
    assert_eq!(ErrorKind::from(ErrorCode::DLPackVersionMismatch), ErrorKind::System);
    assert_eq!(ErrorKind::from(ErrorCode::NotImplemented), ErrorKind::Runtime);
    assert_eq!(ErrorKind::from(ErrorCode::Internal), ErrorKind::Internal);
    assert!(ErrorKind::System.is_recoverable());
    assert!(!ErrorKind::Usage.is_recoverable());
    assert_eq!(ErrorKind::Runtime.label(), "runtime");
    assert_eq!(Severity::Fatal.label(), "fatal");
}

#[test]
fn error_kind_follows_root_cause() {
    let e = wrapped(MohuError::DivisionByZero, 2);
    assert_eq!(e.code(), ErrorCode::Context);
    assert_eq!(e.root_cause().code(), ErrorCode::DivisionByZero);
    assert_eq!(e.chain_depth(), 2);
    assert_eq!(e.kind(), ErrorKind::Runtime);
    assert_eq!(e.severity(), Severity::Error);
    let bug = wrapped(MohuError::bug("broken".to_string()), 1);
    assert_eq!(bug.kind(), ErrorKind::Internal);
    assert_eq!(bug.severity(), Severity::Fatal);
}

#[test]
fn transient_and_usage_errors() {
    assert!(MohuError::AllocationFailed { bytes: 8, human: "8 B".to_string() }.is_transient());
    assert!(!MohuError::ReadOnly.is_transient());
    assert!(MohuError::ZeroSliceStep.is_usage_error());
    assert!(!MohuError::ReadOnly.is_usage_error());
}

#[test]
fn constructors() {
    assert!(matches!(MohuError::bug("x".to_string()), MohuError::Internal(m) if m == "x"));
    assert!(matches!(
        MohuError::domain("sqrt", "negative input".to_string()),
        MohuError::DomainError { op: "sqrt", reason } if reason == "negative input"
    ));
    assert!(matches!(
        MohuError::matmul_shape("matmul", [2, 3], [4, 5]),
        MohuError::MatrixDimensionMismatch { op: "matmul", lhs_rows: 2, lhs_cols: 3, rhs_rows: 4, rhs_cols: 5 }
    ));
}

#[test]
fn result_checks() {
    let ok: MohuResult<i32> = Ok(42);
    assert_eq!(assert_ok(ok, "answer"), 42);
    let err: MohuResult<()> = Err(MohuError::DivisionByZero);
    assert!(matches!(assert_err(err, "should fail on zero divisor"), MohuError::DivisionByZero));
    let err: MohuResult<()> = Err(wrapped(MohuError::DivisionByZero, 1));
    let e = assert_err_code(err, ErrorCode::DivisionByZero, "code");
    assert_eq!(e.chain_depth(), 1);
    let err: MohuResult<()> = Err(MohuError::ReadOnly);
    assert!(matches!(assert_err_kind(err, ErrorKind::Usage, "kind"), MohuError::ReadOnly));
    let err: MohuResult<()> = Err(MohuError::ShapeMismatch { expected: vec![2, 3], got: vec![3, 2] });
    assert_shape_err(err, &[2, 3], &[3, 2]);
    let err: MohuResult<()> = Err(wrapped(MohuError::ScalarArray, 3));
    assert_eq!(assert_chain_depth(err, 3, "depth").chain_depth(), 3);
}

#[test]
fn multi_error_into_result() {
    let m = MultiError::new();
    assert!(m.is_ok());
    assert!(m.into_result().is_ok());

    let mut one = MultiError::with_capacity(2);
    one.push(MohuError::ReadOnly);
    assert!(matches!(one.into_result(), Err(MohuError::ReadOnly)));

    let mut two = MultiError::new();
    two.collect::<u8>(Ok(1));
    two.collect::<u8>(Err(MohuError::ZeroSliceStep));
    two.push(MohuError::SingularMatrix);
    assert!(two.has_errors());
    assert_eq!(two.len(), 2);
    assert!(!two.is_empty());
    assert_eq!(two.iter().len(), 2);
    match two.into_result() {
        Err(MohuError::Multiple(m)) => {
            let errs = m.into_errors();
            assert!(matches!(errs[0], MohuError::ZeroSliceStep));
            assert!(matches!(errs[1], MohuError::SingularMatrix));
        }
        other => panic!("unexpected {other:?}"),
    }
}

#[test]
fn multi_error_kind_is_the_gravest() {
    let mut m = MultiError::new();
    m.push(MohuError::ZeroSliceStep);
    m.push(MohuError::SingularMatrix);
    let mut more = MultiError::new();
    more.push(MohuError::ReadOnly);
    m.extend_from(more);
    assert_eq!(m.len(), 3);
    let e = MohuError::Multiple(m);
    assert_eq!(e.kind(), ErrorKind::Runtime);
    assert_eq!(e.code(), ErrorCode::Internal);
    assert_eq!(MohuError::Multiple(MultiError::new()).kind(), ErrorKind::Internal);
}

#[test]
fn result_ext_wraps_errors() {
    let ok: MohuResult<u8> = Ok(3);
    assert_eq!(ok.context("ignored".to_string()).unwrap(), 3);
    let err: MohuResult<u8> = Err(MohuError::ReadOnly);
    match err.op("fill") {
        Err(MohuError::Context { context, source }) => {
            assert_eq!(context, "operation 'fill'");
            assert!(matches!(*source, MohuError::ReadOnly));
        }
        other => panic!("unexpected {other:?}"),
    }
    let err: MohuResult<u8> = Err(MohuError::ZeroSliceStep);
    match err.axis(12) {
        Err(MohuError::Context { context, .. }) => assert_eq!(context, "axis 12"),
        other => panic!("unexpected {other:?}"),
    }
    let err: MohuResult<u8> = Err(MohuError::ZeroSliceStep);
    match err.with_context(|| "while slicing".to_string()) {
        Err(e) => {
            assert_eq!(e.chain_depth(), 1);
            assert!(matches!(e.root_cause(), MohuError::ZeroSliceStep));
        }
        Ok(_) => panic!("expected an error"),
    }
    let err: MohuResult<u8> = Err(MohuError::ReadOnly);
    assert!(matches!(err.ok_or_mohu(MohuError::ScalarArray), Err(MohuError::ReadOnly)));
}

#[test]
fn option_ext_reports_missing_values() {
    assert_eq!(Some(5).op("x").unwrap(), 5);
    match None::<u8>.op("lookup") {
        Err(MohuError::Internal(m)) => assert_eq!(m, "unexpected None in operation 'lookup'"),
        other => panic!("unexpected {other:?}"),
    }
    match None::<u8>.axis(2) {
        Err(MohuError::Internal(m)) => assert_eq!(m, "unexpected None on axis 2"),
        other => panic!("unexpected {other:?}"),
    }
    match None::<u8>.context("gone".to_string()) {
        Err(MohuError::Internal(m)) => assert_eq!(m, "gone"),
        other => panic!("unexpected {other:?}"),
    }
    assert!(matches!(None::<u8>.ok_or_mohu(MohuError::ScalarArray), Err(MohuError::ScalarArray)));
    assert!(matches!(None::<u8>.with_context(|| "later".to_string()), Err(MohuError::Internal(_))));
}

#[test]
fn python_exception_kinds() {
    assert_eq!(python_exception_kind(&MohuError::ZeroSliceStep), PyExceptionKind::IndexError);
    assert_eq!(python_exception_kind(&MohuError::ReadOnly), PyExceptionKind::BufferError);
    assert_eq!(python_exception_kind(&MohuError::UnknownDType("x".to_string())), PyExceptionKind::ValueError);
    assert_eq!(python_exception_kind(&MohuError::NotImplemented("x")), PyExceptionKind::NotImplementedError);
    assert_eq!(python_exception_kind(&MohuError::DLPackNullPointer), PyExceptionKind::RuntimeError);
    assert_eq!(python_exception_kind(&MohuError::Internal("x".to_string())), PyExceptionKind::RuntimeError);
}

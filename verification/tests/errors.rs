use std::io;

use netlab_server::domain::errors::AppError;

#[test]
fn display_text_for_simple_variants() {
    assert_eq!(AppError::NoPortAvailable.message(), "no port available in pool");
    assert_eq!(AppError::BadType("xxx".into()).message(), "bad port type: xxx");
    assert_eq!(AppError::BadHex.message(), "bad hex input");
    assert_eq!(AppError::PortBind("os".into()).message(), "port bind failed: os");
    assert_eq!(AppError::PortInUse(8080).message(), "port 8080 already in use");
    assert_eq!(AppError::UnknownClient("abc".into()).message(), "unknown client: abc");
    assert_eq!(AppError::BadToken.message(), "bad token");
}

#[test]
fn from_io_error_preserves_kind_message() {
    let io_err = io::Error::other("boom");
    let err: AppError = io_err.into();
    assert_eq!(err.message(), "io error: boom");
    match err {
        AppError::Io(e) => assert_eq!(e.to_string(), "boom"),
        other => panic!("expected Io, got {other:?}"),
    }
}

#[test]
fn from_serde_json_error_routes_to_json_variant() {
    let bad: serde_json::Error =
        serde_json::from_str::<i32>("not-a-number").expect_err("serde should fail");
    let text = bad.to_string();
    let err: AppError = bad.into();
    assert_eq!(err.message(), format!("json error: {text}"));
    assert!(matches!(err, AppError::Json(_)));
}

#[test]
fn debug_does_not_panic() {
    let samples = [
        AppError::NoPortAvailable,
        AppError::BadType("x".into()),
        AppError::BadHex,
        AppError::PortBind("x".into()),
        AppError::PortInUse(1),
        AppError::UnknownClient("x".into()),
        AppError::BadToken,
    ];
    for s in samples {
        let _ = format!("{s:?}");
    }
}

#[test]
fn port_numbers_render_in_decimal() {
    assert_eq!(AppError::PortInUse(0).message(), "port 0 already in use");
    assert_eq!(AppError::PortInUse(65535).message(), "port 65535 already in use");
    assert_eq!(AppError::PortInUse(10).message(), "port 10 already in use");
}

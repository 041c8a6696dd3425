use pageseer::PageseerError;

#[test]
fn io_error_displays_underlying_message() {
    let err = PageseerError::Io(std::io::Error::new(std::io::ErrorKind::NotFound, "missing"));
    let msg = err.display_text();
    assert!(msg.contains("missing"), "message: {msg}");
    assert!(msg.starts_with("io error: "), "message: {msg}");
}

#[test]
fn rhwp_displays_underlying_message() {
    let err = PageseerError::Rhwp("parse hwp: bad magic".to_owned());
    let msg = err.display_text();
    assert!(msg.contains("rhwp"), "message: {msg}");
    assert!(msg.contains("bad magic"), "message: {msg}");
}

#[test]
fn config_displays_underlying_message() {
    let err = PageseerError::Config("empty input list".to_owned());
    let msg = err.display_text();
    assert!(msg.contains("empty input list"), "message: {msg}");
}

#[test]
fn gotenberg_error_shows_status_and_trace() {
    let err = PageseerError::Gotenberg {
        status: Some(502),
        trace: Some("t-1".into()),
        message: "HTTP 502".into(),
    };
    assert_eq!(
        err.display_text(),
        "gotenberg error (status Some(502), trace Some(\"t-1\")): HTTP 502"
    );
    let err = PageseerError::Gotenberg { status: None, trace: None, message: "send: refused".into() };
    assert_eq!(err.display_text(), "gotenberg error (status None, trace None): send: refused");
    assert_eq!(PageseerError::Pdfium("render".into()).display_text(), "pdfium error: render");
}

#[test]
fn io_errors_convert_into_the_io_variant() {
    let err: PageseerError = std::io::Error::new(std::io::ErrorKind::Other, "disk").into();
    assert!(matches!(err, PageseerError::Io(_)));
    assert_eq!(err.display_text(), "io error: disk");
}

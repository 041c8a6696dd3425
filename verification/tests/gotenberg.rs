use pageseer::gotenberg::{convert_endpoint, http_failure, is_success_status, resolve_base_url};
use pageseer::PageseerError;

#[test]
fn resolve_base_url_explicit_takes_precedence() {
    let url = resolve_base_url(Some("http://example.com/"), None);
    assert_eq!(url, "http://example.com");
}

#[test]
fn resolve_base_url_trims_trailing_slash() {
    let url = resolve_base_url(Some("http://example.com////"), None);
    assert_eq!(url, "http://example.com");
}

#[test]
fn resolve_base_url_falls_back_to_environment_then_default() {
    assert_eq!(resolve_base_url(Some("http://a"), Some("http://b/")), "http://a");
    assert_eq!(resolve_base_url(None, Some("http://b/")), "http://b");
    assert_eq!(resolve_base_url(None, None), "http://localhost:3000");
    let once = resolve_base_url(None, Some("http://c//"));
    assert_eq!(resolve_base_url(Some(&once), None), once);
}

#[test]
fn conversion_route_is_appended() {
    assert_eq!(
        convert_endpoint("http://localhost:3000"),
        "http://localhost:3000/forms/libreoffice/convert"
    );
}

#[test]
fn failure_status_becomes_gotenberg_error() {
    assert!(is_success_status(200) && is_success_status(299));
    assert!(!is_success_status(199) && !is_success_status(300) && !is_success_status(502));
    match http_failure(502, "502 Bad Gateway", Some("tr".into()), "down") {
        PageseerError::Gotenberg { status, trace, message } => {
            assert_eq!(status, Some(502));
            assert_eq!(trace.as_deref(), Some("tr"));
            assert_eq!(message, "HTTP 502 Bad Gateway: down");
        }
        other => panic!("expected Gotenberg, got {other:?}"),
    }
}

use knative_explorer::error::AppError;

#[test]
fn error_display_kube() {
    let e = AppError::Kube("connection refused".into());
    assert_eq!(e.to_string(), "kubernetes error: connection refused");
}

#[test]
fn error_display_http() {
    let e = AppError::Http("timeout".into());
    assert_eq!(e.to_string(), "http error: timeout");
}

#[test]
fn error_display_open() {
    let e = AppError::Open("no browser".into());
    assert_eq!(e.to_string(), "failed to open URL: no browser");
}

use ferridriver::error::{normalize_action_result, FerriError, FerriResult};

#[test]
fn timeout_message_matches_playwright_shape() {
    let err = FerriError::timeout("navigating to https://example.org", 30_000);
    assert_eq!(
        err.to_string(),
        "Timeout 30000ms exceeded while navigating to https://example.org"
    );
    assert_eq!(err.name(), "TimeoutError");
    assert!(err.is_timeout_error());
    assert!(!err.is_target_closed_error());
}

#[test]
fn timeout_without_operation_omits_while_clause() {
    let err = FerriError::timeout_plain(5_000);
    assert_eq!(err.to_string(), "Timeout 5000ms exceeded");
}

#[test]
fn target_closed_with_reason() {
    let err = FerriError::target_closed(Some("browser crashed".into()));
    assert_eq!(
        err.to_string(),
        "Target page, context or browser has been closed: browser crashed"
    );
    assert_eq!(err.name(), "TargetClosedError");
    assert!(err.is_target_closed_error());
}

#[test]
fn target_closed_without_reason() {
    let err = FerriError::target_closed(None);
    assert_eq!(err.to_string(), "Target page, context or browser has been closed");
}

#[test]
fn strict_mode_violation_reports_selector_and_count() {
    let err = FerriError::strict("button.primary", 3);
    assert_eq!(
        err.to_string(),
        r#"strict mode violation: selector "button.primary" resolved to 3 elements"#
    );
    assert_eq!(err.name(), "FerriError");
    assert!(err.is_strict_mode_violation());
}

#[test]
fn name_dispatch_covers_all_named_variants() {
    assert_eq!(FerriError::timeout_plain(1).name(), "TimeoutError");
    assert_eq!(FerriError::target_closed(None).name(), "TargetClosedError");
    assert_eq!(FerriError::Backend("x".into()).name(), "FerriError");
    assert_eq!(FerriError::NotConnected.name(), "FerriError");
}

#[test]
fn from_string_and_str_bridge_maps_plain_messages_to_backend() {
    let from_string: FerriError = String::from("legacy").into();
    let from_str: FerriError = "legacy".into();
    assert!(matches!(from_string, FerriError::Backend(ref s) if s == "legacy"));
    assert!(matches!(from_str, FerriError::Backend(ref s) if s == "legacy"));
}

fn io_fail() -> FerriResult<()> {
    let failed: Result<(), std::io::Error> =
        Err(std::io::Error::new(std::io::ErrorKind::NotFound, "no such file"));
    failed?;
    Ok(())
}

fn json_fail() -> FerriResult<()> {
    let _: serde_json::Value = serde_json::from_str("{")?;
    Ok(())
}

#[test]
fn io_and_json_errors_convert_through_question_mark() {
    assert!(matches!(io_fail().unwrap_err(), FerriError::Io(_)));
    assert!(matches!(json_fail().unwrap_err(), FerriError::Json(_)));
}

#[test]
fn navigation_error_formats_url_and_message() {
    let err = FerriError::Navigation {
        url: "https://example.org".into(),
        message: "net::ERR_NAME_NOT_RESOLVED".into(),
    };
    assert_eq!(
        err.to_string(),
        "navigation to https://example.org failed: net::ERR_NAME_NOT_RESOLVED"
    );
}

#[test]
fn protocol_error_formats_method() {
    let err = FerriError::protocol("Page.navigate", "session detached");
    assert_eq!(err.to_string(), "protocol error (Page.navigate): session detached");
}

#[test]
fn invalid_argument_quotes_name() {
    let err = FerriError::invalid_argument("timeout", "must be non-negative");
    assert_eq!(err.to_string(), r#"invalid argument "timeout": must be non-negative"#);
}

#[test]
fn invalid_selector_quotes_selector() {
    let err = FerriError::invalid_selector("???", "unknown engine");
    assert_eq!(err.to_string(), r#"invalid selector "???": unknown engine"#);
}

#[test]
fn unsupported_prefix_maps_to_unsupported_with_trimmed_reason() {
    let err: FerriError = "unsupported:  drag and drop \t".into();
    assert!(matches!(err, FerriError::Unsupported(ref s) if s == "drag and drop"));
    let err: FerriError = String::from("unsupported:").into();
    assert!(matches!(err, FerriError::Unsupported(ref s) if s.is_empty()));
    let err: FerriError = String::from("Unsupported: x").into();
    assert!(matches!(err, FerriError::Backend(ref s) if s == "Unsupported: x"));
    assert_eq!(err.to_string(), "backend error: Unsupported: x");
}

#[test]
fn remaining_messages_match_their_variant() {
    assert_eq!(FerriError::backend("boom").to_string(), "backend error: boom");
    assert_eq!(FerriError::NotConnected.to_string(), "not connected");
    assert_eq!(FerriError::Interrupted("stop".into()).to_string(), "interrupted: stop");
    assert_eq!(
        FerriError::Unsupported("pdf".into()).to_string(),
        "unsupported operation: pdf"
    );
    assert_eq!(FerriError::evaluation("ReferenceError").to_string(), "evaluation error: ReferenceError");
    assert_eq!(FerriError::Snapshot("missing".into()).to_string(), "snapshot error: missing");
    assert_eq!(FerriError::Other("plain".into()).to_string(), "plain");
    assert_eq!(
        FerriError::navigation("https://a.test", "refused").to_string(),
        "navigation to https://a.test failed: refused"
    );
    let io = FerriError::from(std::io::Error::new(std::io::ErrorKind::Other, "disk full"));
    assert_eq!(io.to_string(), "io error: disk full");
    let json = json_fail().unwrap_err();
    assert!(json.to_string().starts_with("json error: "));
    let as_string: String = FerriError::timeout_plain(7).into();
    assert_eq!(as_string, "Timeout 7ms exceeded");
}

#[test]
fn debug_quoting_escapes_selector() {
    let err = FerriError::strict("a\"b\\c", 0);
    assert_eq!(
        err.to_string(),
        r#"strict mode violation: selector "a\"b\\c" resolved to 0 elements"#
    );
}

#[test]
fn clone_keeps_class_and_message() {
    let errors = vec![
        FerriError::timeout("x", 1),
        FerriError::target_closed(Some("gone".into())),
        FerriError::strict("div", 2),
        FerriError::protocol("A.b", "c"),
        FerriError::NotConnected,
        FerriError::Other("o".into()),
    ];
    for e in &errors {
        let c = e.clone();
        assert_eq!(c.name(), e.name());
        assert_eq!(c.is_timeout_error(), e.is_timeout_error());
        assert_eq!(c.is_target_closed_error(), e.is_target_closed_error());
        assert_eq!(c.is_strict_mode_violation(), e.is_strict_mode_violation());
        assert_eq!(c.to_string(), e.to_string());
    }
}

#[test]
fn clone_rebuilds_io_and_turns_json_into_backend() {
    let io = FerriError::from(std::io::Error::new(std::io::ErrorKind::NotFound, "gone"));
    let c = io.clone();
    assert!(matches!(c, FerriError::Io(ref e)
        if e.kind() == std::io::ErrorKind::NotFound && e.message == "gone"));
    assert_eq!(c.to_string(), "io error: gone");
    let json = json_fail().unwrap_err();
    let message = json.to_string();
    let c = json.clone();
    assert!(matches!(c, FerriError::Backend(ref s) if *s == message));
    assert_eq!(c.name(), "FerriError");
    assert_eq!(c.to_string(), format!("backend error: {message}"));
    let direct: serde_json::Error = serde_json::from_str::<serde_json::Value>("{").unwrap_err();
    assert_eq!(message, format!("json error: {direct}"));
    let as_string: String = FerriError::from(direct).into();
    assert_eq!(as_string, message);
}

#[test]
fn locator_polling_retries_transient_failures_only() {
    assert!(FerriError::NotConnected.is_locator_poll_retriable());
    assert!(FerriError::backend("node not found").is_locator_poll_retriable());
    assert!(FerriError::evaluation("element detached from DOM").is_locator_poll_retriable());
    assert!(FerriError::Other("error:notvisible".into()).is_locator_poll_retriable());
    assert!(FerriError::Interrupted("session not connected".into()).is_locator_poll_retriable());
    assert!(FerriError::protocol("DOM.describeNode", "Node not found, detached").is_locator_poll_retriable());
    assert!(!FerriError::protocol("DOM.x", "error:not here").is_locator_poll_retriable());
    assert!(!FerriError::backend("crashed").is_locator_poll_retriable());
    assert!(!FerriError::Other("xerror:not".into()).is_locator_poll_retriable());
    assert!(!FerriError::timeout_plain(5).is_locator_poll_retriable());
    assert!(!FerriError::target_closed(None).is_locator_poll_retriable());
    assert!(!FerriError::Snapshot("not found".into()).is_locator_poll_retriable());
}

#[test]
fn normalize_action_result_converts_errors() {
    let ok: Result<u8, String> = Ok(3);
    assert!(matches!(normalize_action_result(ok), Ok(3)));
    let err: Result<u8, String> = Err("unsupported: tracing".into());
    assert!(matches!(normalize_action_result(err), Err(FerriError::Unsupported(ref s)) if s == "tracing"));
    let err: Result<u8, FerriError> = Err(FerriError::NotConnected);
    assert!(matches!(normalize_action_result(err), Err(FerriError::NotConnected)));
}

use confluence_cli::cli::{exit_code, failure_rendering, success_rendering, Rendering};
use confluence_cli::commands::{CommandFailure, CommandOutput};
use confluence_cli::error::{AppError, ErrorBody, ErrorCode};
use confluence_cli::json::Json;
use confluence_cli::output::{error_json, success_json};
use confluence_cli::redact::{redact_value, sensitive_key};

fn to_value(json: &Json) -> serde_json::Value {
    match json {
        Json::Null => serde_json::Value::Null,
        Json::Bool(b) => serde_json::Value::Bool(*b),
        Json::Number(n) => serde_json::Value::Number(n.parse().unwrap()),
        Json::Str(s) => serde_json::Value::String(s.clone()),
        Json::Array(items) => serde_json::Value::Array(items.iter().map(to_value).collect()),
        Json::Object(members) => {
            let mut map = serde_json::Map::new();
            for (key, value) in members {
                map.insert(key.clone(), to_value(value));
            }
            serde_json::Value::Object(map)
        }
    }
}

fn from_value(value: &serde_json::Value) -> Json {
    match value {
        serde_json::Value::Null => Json::Null,
        serde_json::Value::Bool(b) => Json::Bool(*b),
        serde_json::Value::Number(n) => Json::Number(n.to_string()),
        serde_json::Value::String(s) => Json::Str(s.clone()),
        serde_json::Value::Array(items) => Json::Array(items.iter().map(from_value).collect()),
        serde_json::Value::Object(map) => Json::Object(
            map.iter()
                .map(|(k, v)| (k.clone(), from_value(v)))
                .collect(),
        ),
    }
}

fn parse(text: &str) -> serde_json::Value {
    serde_json::from_str(text).unwrap()
}

#[test]
fn success_envelope_has_stable_shape() {
    let value = success_json("page.update", true, from_value(&parse(r#"{"page_id": "123"}"#)));

    assert_eq!(
        to_value(&value),
        parse(r#"{"ok": true, "command": "page.update", "dry_run": true, "data": {"page_id": "123"}}"#)
    );
}

#[test]
fn error_envelope_has_stable_shape() {
    let error = AppError::new(
        ErrorCode::ConfluenceVersionConflict,
        "Page was updated by someone else. Fetch the latest version and retry.".to_string(),
    )
    .with_retryable(true)
    .with_details(from_value(&parse(r#"{"status": 409}"#)));

    let value = error_json("page.update", &error);

    assert_eq!(
        to_value(&value),
        parse(
            r#"{
                "ok": false,
                "command": "page.update",
                "error": {
                    "code": "confluence_version_conflict",
                    "message": "Page was updated by someone else. Fetch the latest version and retry.",
                    "retryable": true,
                    "details": {"status": 409}
                }
            }"#
        )
    );
}

#[test]
fn token_like_details_are_redacted() {
    let error = AppError::new(ErrorCode::AuthFailed, "Authentication failed.".to_string())
        .with_details(from_value(&parse(
            r#"{
                "Authorization": "Basic abc123",
                "api_token": "api-token-secret",
                "access_token": "access-secret",
                "refresh_token": "refresh-secret",
                "bearer_token": "bearer-secret",
                "apiToken": "camel-secret",
                "secret": "secret-value",
                "nested": {
                    "token": "nested-secret",
                    "items": [
                        {"Authorization": "Bearer array-secret"},
                        {"apiToken": "array-camel-secret"},
                        {"safe": "visible"}
                    ]
                }
            }"#,
        )));

    let value = error_json("space.list", &error);
    let text = serde_json::to_string(&to_value(&value)).unwrap();

    assert!(!text.contains("abc123"));
    assert!(!text.contains("api-token-secret"));
    assert!(!text.contains("access-secret"));
    assert!(!text.contains("refresh-secret"));
    assert!(!text.contains("bearer-secret"));
    assert!(!text.contains("camel-secret"));
    assert!(!text.contains("secret-value"));
    assert!(!text.contains("nested-secret"));
    assert!(!text.contains("array-secret"));
    assert!(!text.contains("array-camel-secret"));
    assert!(text.contains("visible"));
    assert!(text.contains("[redacted]"));
}

#[test]
fn redaction_is_idempotent_and_keeps_clean_documents() {
    let doc = parse(r#"{"status": 401, "items": [1, "two", null, true], "AUTHORIZATION": "x"}"#);
    let once = to_value(&redact_value(from_value(&doc)));
    let twice = to_value(&redact_value(from_value(&once)));
    assert_eq!(once, twice);
    assert_eq!(once["AUTHORIZATION"], "[redacted]");
    assert_eq!(once["status"], 401);

    let clean = parse(r#"{"status": 500, "response_body": "oops", "list": [{"a": 1}]}"#);
    assert_eq!(to_value(&redact_value(from_value(&clean))), clean);
}

#[test]
fn sensitive_key_rule() {
    assert!(sensitive_key("Authorization"));
    assert!(sensitive_key("X-API-TOKEN"));
    assert!(sensitive_key("client_secret"));
    assert!(!sensitive_key("status"));
    assert!(!sensitive_key("response_body"));
}

#[test]
fn error_codes_have_stable_names() {
    let all = [
        (ErrorCode::ConfigNotFound, "config_not_found"),
        (ErrorCode::ConfigInvalid, "config_invalid"),
        (ErrorCode::AuthFailed, "auth_failed"),
        (ErrorCode::PermissionDenied, "permission_denied"),
        (ErrorCode::NotFound, "not_found"),
        (ErrorCode::RateLimited, "rate_limited"),
        (ErrorCode::ConfluenceValidationFailed, "confluence_validation_failed"),
        (ErrorCode::ConfluenceVersionConflict, "confluence_version_conflict"),
        (ErrorCode::NetworkError, "network_error"),
        (ErrorCode::MarkdownConversionFailed, "markdown_conversion_failed"),
        (ErrorCode::UnsupportedMarkdown, "unsupported_markdown"),
        (ErrorCode::InternalError, "internal_error"),
    ];
    for (code, name) in all {
        assert_eq!(code.as_str(), name);
    }
    for (i, (a, _)) in all.iter().enumerate() {
        for (b, _) in all.iter().skip(i + 1) {
            assert_ne!(a.as_str(), b.as_str());
        }
    }
}

#[test]
fn new_errors_are_not_retryable_and_have_empty_details() {
    let error = AppError::new(ErrorCode::NotFound, "gone".to_string());
    assert!(!error.retryable);
    assert_eq!(to_value(&error.details), parse("{}"));
    assert_eq!(error.to_display_string(), "not_found: gone");
    let body = ErrorBody::from_error(&error);
    assert_eq!(body.code, "not_found");
    assert_eq!(body.message, "gone");
}

#[test]
fn text_output_is_printed_as_text() {
    let output = CommandOutput::text("config.init", "done".to_string());
    match success_rendering(output) {
        Rendering::Text(t) => assert_eq!(t, "done"),
        Rendering::Json(_) => panic!("text output must print as text"),
    }
    let output = CommandOutput::new("space.list", false, Json::Null);
    match success_rendering(output) {
        Rendering::Json(j) => assert_eq!(
            to_value(&j),
            parse(r#"{"ok": true, "command": "space.list", "dry_run": false, "data": null}"#)
        ),
        Rendering::Text(_) => panic!("JSON output must print as JSON"),
    }
    let failure = CommandFailure::new(
        "search",
        AppError::new(ErrorCode::NetworkError, "down".to_string()),
    );
    assert_eq!(to_value(&failure_rendering(&failure))["ok"], false);
    assert_eq!(exit_code(true), 0);
    assert_eq!(exit_code(false), 1);
}

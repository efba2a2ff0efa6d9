use confluence_cli::client::{
    create_page_payload, endpoint_path, find_space_id, response_failure, sanitize_response_body,
    status_error, status_error_code, transport_error, truncate_summary, update_page_payload,
    CreatePageRequest, HttpMethod, Space, UpdatePageRequest,
};
use confluence_cli::json::Json;

fn space(id: &str, key: &str) -> Space {
    Space {
        id: id.to_string(),
        key: key.to_string(),
        name: "Engineering".to_string(),
    }
}

#[test]
fn status_mapping_returns_stable_error_code() {
    let error = status_error(HttpMethod::Get, "/api/v2/spaces", 401, "");
    assert_eq!(error.code.as_str(), "auth_failed");
    assert_eq!(error.message, "Confluence returned HTTP 401 Unauthorized.");
    assert!(!error.retryable);
}

#[test]
fn status_codes_map_to_stable_errors() {
    let put = HttpMethod::Put;
    let get = HttpMethod::Get;
    assert_eq!(status_error_code(get, "/x", 403).as_str(), "permission_denied");
    assert_eq!(status_error_code(get, "/x", 404).as_str(), "not_found");
    assert_eq!(
        status_error_code(put, "/api/v2/pages/1", 409).as_str(),
        "confluence_version_conflict"
    );
    assert_eq!(
        status_error_code(get, "/api/v2/pages/1", 409).as_str(),
        "confluence_validation_failed"
    );
    assert_eq!(status_error_code(get, "/x", 429).as_str(), "rate_limited");
    assert_eq!(status_error_code(get, "/x", 503).as_str(), "network_error");
    assert_eq!(status_error_code(get, "/x", 400).as_str(), "confluence_validation_failed");
    assert_eq!(status_error_code(get, "/x", 302).as_str(), "network_error");
}

#[test]
fn retryable_and_details() {
    let error = status_error(HttpMethod::Get, "/x", 429, "slow down");
    assert!(error.retryable);
    match &error.details {
        Json::Object(members) => {
            assert_eq!(members[0].0, "status");
            assert!(matches!(&members[0].1, Json::Number(n) if n == "429"));
            assert_eq!(members[1].0, "response_body");
            assert!(matches!(&members[1].1, Json::Str(s) if s == "slow down"));
        }
        _ => panic!("details must be an object"),
    }
    assert!(status_error(HttpMethod::Get, "/x", 500, "").retryable);
    assert!(!status_error(HttpMethod::Get, "/x", 404, "").retryable);
}

#[test]
fn version_conflict_on_page_update_is_retryable() {
    let error = status_error(HttpMethod::Put, "/api/v2/pages/456", 409, "stale");
    assert_eq!(error.code.as_str(), "confluence_version_conflict");
    assert_eq!(
        error.message,
        "Page was updated by someone else. Fetch the latest version and retry."
    );
    assert!(error.retryable);
    let other = status_error(HttpMethod::Get, "/api/v2/pages/456", 409, "");
    assert_eq!(other.code.as_str(), "confluence_validation_failed");
    assert_eq!(other.message, "Confluence returned HTTP 409 Conflict.");
    assert!(!other.retryable);
}

#[test]
fn unknown_status_has_placeholder_reason() {
    let error = status_error(HttpMethod::Get, "/x", 599, "");
    assert_eq!(error.message, "Confluence returned HTTP 599 <unknown status code>.");
}

#[test]
fn response_bodies_are_sanitized_and_truncated() {
    assert_eq!(
        sanitize_response_body("user@example.com used token-value", "token-value", "user@example.com"),
        "[redacted] used [redacted]"
    );
    let long = "x".repeat(600);
    let t = truncate_summary(&long);
    assert_eq!(t.chars().count(), 515);
    assert!(t.ends_with("..."));
    assert_eq!(truncate_summary("short"), "short");
    let exactly = "y".repeat(512);
    assert_eq!(truncate_summary(&exactly), exactly);

    let error = response_failure(
        HttpMethod::Get,
        "/api/v2/spaces",
        401,
        Some("bad token-value".to_string()),
        "token-value",
        "user@example.com",
    );
    match &error.details {
        Json::Object(members) => {
            assert!(matches!(&members[1].1, Json::Str(s) if s == "bad [redacted]"));
        }
        _ => panic!("details must be an object"),
    }
}

#[test]
fn sanitizing_leaves_no_credential_even_next_to_markers() {
    let out = sanitize_response_body("abcabcabc-abcuser@x.io", "abc", "user@x.io");
    assert_eq!(out, "[redacted][redacted][redacted]-[redacted][redacted]");
    assert!(!out.contains("abc"));
    assert!(!out.contains("user@x.io"));
    let long = format!("{}abc{}", "y".repeat(509), "z".repeat(100));
    let error = response_failure(HttpMethod::Get, "/x", 500, Some(long), "abc", "user@x.io");
    match &error.details {
        Json::Object(members) => match &members[1].1 {
            Json::Str(s) => {
                assert!(!s.contains("abc"));
                assert!(s.ends_with("..."));
            }
            _ => panic!("response_body must be a string"),
        },
        _ => panic!("details must be an object"),
    }
    // A credential that occurs inside the marker is the exception.
    let out = sanitize_response_body("red", "red", "user@x.io");
    assert!(out.contains("red"));
}

#[test]
fn endpoints_join_base_path_and_api_path() {
    assert_eq!(endpoint_path("/wiki/", "/api/v2/spaces"), "/wiki/api/v2/spaces");
    assert_eq!(endpoint_path("/", "/api/v2/spaces"), "/api/v2/spaces");
    assert_eq!(endpoint_path("", "rest/api/search"), "/rest/api/search");
}

#[test]
fn space_lookup_returns_matching_id_or_not_found() {
    let spaces = vec![space("1", "DOC"), space("987", "ENG"), space("2", "ENG")];
    assert_eq!(find_space_id(&spaces, "ENG").unwrap(), "987");
    let error = find_space_id(&spaces, "OPS").unwrap_err();
    assert_eq!(error.code.as_str(), "not_found");
    assert_eq!(error.message, "Space OPS was not found.");
}

#[test]
fn payloads_carry_constants_and_request_fields() {
    let p = create_page_payload(CreatePageRequest {
        space_id: "987".to_string(),
        title: "New Page".to_string(),
        parent_id: Some("123".to_string()),
        storage_html: "<h1>New Page</h1>\n".to_string(),
    });
    assert_eq!(p.status, "current");
    assert_eq!(p.subtype, "live");
    assert_eq!(p.body.representation, "storage");
    assert_eq!(p.body.value, "<h1>New Page</h1>\n");
    let (path, u) = update_page_payload(UpdatePageRequest {
        page_id: "456".to_string(),
        title: "Updated Page".to_string(),
        next_version: 8,
        storage_html: "<h1>Updated Page</h1>\n".to_string(),
    });
    assert_eq!(path, "/api/v2/pages/456");
    assert_eq!(u.version.number, 8);
    assert_eq!(u.version.message, "Updated by confluence-cli");
}

#[test]
fn transport_failures_are_retryable_network_errors() {
    let e = transport_error("connection refused");
    assert_eq!(e.code.as_str(), "network_error");
    assert!(e.retryable);
    assert_eq!(e.message, "Failed to reach Confluence: connection refused");
}

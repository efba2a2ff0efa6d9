//! The Confluence API's data and the pure half of talking to it: endpoint
//! paths, request payloads, space lookup and the mapping of failed
//! responses to stable errors.
use vstd::prelude::*;
use crate::error::{AppError, ErrorCode};
use crate::json::{number_value, Json, JsonValue, ObjectBuilder};
use crate::redact::redact;
use crate::text::{
    chars_of, concat, decimal, decimal_string, owned, push_str, replace_all, replace_str,
    strip_end_char, strip_start_char, string_from_range, trim_end_char, trim_start_char, has_prefix,
    starts_with, contains_seq, lacks_char, lemma_replace_all_keeps_absent, occurs_at,
    lemma_replace_all_leaves_no_pattern,
};

verus! {

broadcast use vstd::string::group_string_axioms;

/// A Confluence space.
#[derive(Debug)]
pub struct Space {
    pub id: String,
    pub key: String,
    pub name: String,
}

/// The version of a page.
#[derive(Debug, Clone, Copy, PartialEq, Eq, Structural)]
pub struct PageVersion {
    pub number: u64,
}

/// A page as the v2 API returns it.
#[derive(Debug)]
pub struct Page {
    pub id: String,
    pub status: String,
    pub title: String,
    pub space_id: Option<String>,
    pub parent_id: Option<String>,
    pub version: Option<PageVersion>,
    pub body: Option<Json>,
    pub links: Option<Json>,
}

/// What a page create sends.
#[derive(Debug)]
pub struct CreatePageRequest {
    pub space_id: String,
    pub title: String,
    pub parent_id: Option<String>,
    pub storage_html: String,
}

/// What a page update sends.
#[derive(Debug)]
pub struct UpdatePageRequest {
    pub page_id: String,
    pub title: String,
    pub next_version: u64,
    pub storage_html: String,
}

/// The HTTP methods the client uses.
#[derive(Debug, Clone, Copy, PartialEq, Eq, Structural)]
pub enum HttpMethod {
    Get,
    Post,
    Put,
}

// ---------------------------------------------------------------------------
// Endpoints and payloads
// ---------------------------------------------------------------------------

/// The request path: the site's base path without trailing slashes, then
/// `/`, then the API path without leading slashes.
pub open spec fn joined_path(base_path: Seq<char>, path: Seq<char>) -> Seq<char> {
    let base = strip_end_char(base_path, '/');
    let request = strip_start_char(path, '/');
    if base.len() == 0 {
        "/"@ + request
    } else {
        base + "/"@ + request
    }
}

/// The URL path of an API endpoint below the site's base path.
pub fn endpoint_path(base_path: &str, path: &str) -> (r: String)
    ensures
        r@ == joined_path(base_path@, path@),
{
    let base = trim_end_char(base_path, '/');
    let request = trim_start_char(path, '/');
    if base.as_str().is_empty() {
        concat("/", request.as_str())
    } else {
        let mut r = concat(base.as_str(), "/");
        push_str(&mut r, request.as_str());
        r
    }
}

/// The path of one page in the v2 API.
pub fn page_path(page_id: &str) -> (r: String)
    ensures
        r@ == "/api/v2/pages/"@ + page_id@,
{
    concat("/api/v2/pages/", page_id)
}

/// The body of a page write.
#[derive(Debug)]
pub struct StorageBody {
    pub representation: &'static str,
    pub value: String,
}

/// The JSON a page create posts.
#[derive(Debug)]
pub struct CreatePagePayload {
    pub space_id: String,
    pub status: &'static str,
    pub title: String,
    pub parent_id: Option<String>,
    pub body: StorageBody,
    pub subtype: &'static str,
}

/// The version member of a page update.
#[derive(Debug)]
pub struct UpdateVersion {
    pub number: u64,
    pub message: &'static str,
}

/// The JSON a page update puts.
#[derive(Debug)]
pub struct UpdatePagePayload {
    pub id: String,
    pub status: &'static str,
    pub title: String,
    pub body: StorageBody,
    pub version: UpdateVersion,
}

pub open spec fn same_option(a: Option<String>, b: Option<String>) -> bool {
    match (a, b) {
        (Some(x), Some(y)) => x@ == y@,
        (None, None) => true,
        _ => false,
    }
}

/// The payload of a page create: a current, live page with a storage body.
pub fn create_page_payload(request: CreatePageRequest) -> (p: CreatePagePayload)
    ensures
        p.space_id@ == request.space_id@,
        p.status@ == "current"@,
        p.title@ == request.title@,
        same_option(p.parent_id, request.parent_id),
        p.body.representation@ == "storage"@,
        p.body.value@ == request.storage_html@,
        p.subtype@ == "live"@,
{
    CreatePagePayload {
        space_id: request.space_id,
        status: "current",
        title: request.title,
        parent_id: request.parent_id,
        body: StorageBody { representation: "storage", value: request.storage_html },
        subtype: "live",
    }
}

/// The path and payload of a page update: the page becomes current with the
/// new body at the requested version.
pub fn update_page_payload(request: UpdatePageRequest) -> (r: (String, UpdatePagePayload))
    ensures
        r.0@ == "/api/v2/pages/"@ + request.page_id@,
        r.1.id@ == request.page_id@,
        r.1.status@ == "current"@,
        r.1.title@ == request.title@,
        r.1.body.representation@ == "storage"@,
        r.1.body.value@ == request.storage_html@,
        r.1.version.number == request.next_version,
        r.1.version.message@ == "Updated by confluence-cli"@,
{
    let path = page_path(request.page_id.as_str());
    (
        path,
        UpdatePagePayload {
            id: request.page_id,
            status: "current",
            title: request.title,
            body: StorageBody { representation: "storage", value: request.storage_html },
            version: UpdateVersion { number: request.next_version, message: "Updated by confluence-cli" },
        },
    )
}

// ---------------------------------------------------------------------------
// Spaces
// ---------------------------------------------------------------------------

/// The id of the first space whose key is `key`.
pub open spec fn first_space_with_key(spaces: Seq<Space>, key: Seq<char>) -> Option<Seq<char>>
    decreases spaces.len(),
{
    if spaces.len() == 0 {
        None
    } else if spaces[0].key@ == key {
        Some(spaces[0].id@)
    } else {
        first_space_with_key(spaces.drop_first(), key)
    }
}

fn same_text(a: &str, b: &str) -> (r: bool)
    ensures
        r == (a@ == b@),
{
    let x = chars_of(a);
    let y = chars_of(b);
    if x.len() != y.len() {
        return false;
    }
    let mut i: usize = 0;
    while i < x.len()
        invariant
            i <= x@.len(),
            x@.len() == y@.len(),
            x@ == a@,
            y@ == b@,
            forall|k: int| 0 <= k < i ==> x@[k] == y@[k],
        decreases x.len() - i,
    {
        if x[i] != y[i] {
            return false;
        }
        i = i + 1;
    }
    assert(x@ =~= y@);
    true
}

/// The id of the space with key `key` among `spaces`, or `not_found`.
pub fn find_space_id(spaces: &Vec<Space>, key: &str) -> (r: Result<String, AppError>)
    ensures
        match first_space_with_key(spaces@, key@) {
            Some(id) => r matches Ok(found) && found@ == id,
            None => r matches Err(e) && e.code == ErrorCode::NotFound && e.message@ == "Space "@
                + key@ + " was not found."@,
        },
{
    let mut i: usize = 0;
    assert(spaces@.skip(0) == spaces@);
    while i < spaces.len()
        invariant
            i <= spaces@.len(),
            first_space_with_key(spaces@, key@) == first_space_with_key(spaces@.skip(i as int), key@),
        decreases spaces.len() - i,
    {
        assert(spaces@.skip(i as int)[0] == spaces@[i as int]);
        assert(spaces@.skip(i as int).drop_first() == spaces@.skip(i + 1));
        if same_text(spaces[i].key.as_str(), key) {
            return Ok(spaces[i].id.clone());
        }
        i = i + 1;
    }
    let mut m = concat("Space ", key);
    push_str(&mut m, " was not found.");
    Err(AppError::new(ErrorCode::NotFound, m))
}

// ---------------------------------------------------------------------------
// Failed responses
// ---------------------------------------------------------------------------

/// The reason phrase the `http` crate gives a status code, if it knows one.
pub uninterp spec fn canonical_reason(status: u16) -> Option<Seq<char>>;

/// Calls `StatusCode::from_u16(status)` and its `canonical_reason()`. The
/// contract states only that the result is that reason phrase. Codes outside
/// 100..=999 are refused by `from_u16`, so they are excluded here.
#[verifier::external_body]
fn reason_phrase(status: u16) -> (r: Option<String>)
    requires
        100 <= status <= 999,
    ensures
        match r {
            Some(s) => canonical_reason(status) == Some(s@),
            None => canonical_reason(status) is None,
        },
{
    reqwest::StatusCode::from_u16(status).ok().and_then(|s| s.canonical_reason()).map(
        |s| s.to_string(),
    )
}

/// `StatusCode`'s display text: the number, a space, then the reason phrase
/// or `<unknown status code>`.
pub open spec fn status_text(status: u16) -> Seq<char> {
    decimal(status as nat) + " "@ + match canonical_reason(status) {
        Some(r) => r,
        None => "<unknown status code>"@,
    }
}

/// The stable code for a failed response.
pub open spec fn status_code_for(method: HttpMethod, path: Seq<char>, status: u16) -> ErrorCode {
    if status == 401 {
        ErrorCode::AuthFailed
    } else if status == 403 {
        ErrorCode::PermissionDenied
    } else if status == 404 {
        ErrorCode::NotFound
    } else if status == 409 && method == HttpMethod::Put && has_prefix(path, "/api/v2/pages/"@) {
        ErrorCode::ConfluenceVersionConflict
    } else if status == 429 {
        ErrorCode::RateLimited
    } else if 500 <= status <= 599 {
        ErrorCode::NetworkError
    } else if 400 <= status <= 499 {
        ErrorCode::ConfluenceValidationFailed
    } else {
        ErrorCode::NetworkError
    }
}

/// Network failures, rate limiting and a page write that lost a version
/// race may succeed on a retry.
pub open spec fn is_retryable_code(code: ErrorCode) -> bool {
    code == ErrorCode::NetworkError || code == ErrorCode::RateLimited || code
        == ErrorCode::ConfluenceVersionConflict
}

/// The message of a version conflict on a page write.
pub open spec fn version_conflict_message() -> Seq<char> {
    "Page was updated by someone else. Fetch the latest version and retry."@
}

/// The message of a failed response: a version conflict tells how to
/// recover; any other failure names the status.
pub open spec fn status_message(code: ErrorCode, status: u16) -> Seq<char> {
    if code == ErrorCode::ConfluenceVersionConflict {
        version_conflict_message()
    } else {
        "Confluence returned HTTP "@ + status_text(status) + "."@
    }
}

/// The stable code for a failed response to `method` on `path`.
pub fn status_error_code(method: HttpMethod, path: &str, status: u16) -> (c: ErrorCode)
    ensures
        c == status_code_for(method, path@, status),
{
    let pc = chars_of(path);
    if status == 401 {
        ErrorCode::AuthFailed
    } else if status == 403 {
        ErrorCode::PermissionDenied
    } else if status == 404 {
        ErrorCode::NotFound
    } else if status == 409 && method == HttpMethod::Put && starts_with(
        pc.as_slice(),
        "/api/v2/pages/",
    ) {
        ErrorCode::ConfluenceVersionConflict
    } else if status == 429 {
        ErrorCode::RateLimited
    } else if 500 <= status && status <= 599 {
        ErrorCode::NetworkError
    } else if 400 <= status && status <= 499 {
        ErrorCode::ConfluenceValidationFailed
    } else {
        ErrorCode::NetworkError
    }
}

/// At most this many characters of a response body are kept.
pub open spec fn summary_limit() -> nat {
    512
}

/// The first 512 characters of `s`, with `...` appended when more followed.
pub open spec fn truncated(s: Seq<char>) -> Seq<char> {
    if s.len() > summary_limit() {
        s.take(summary_limit() as int) + "..."@
    } else {
        s
    }
}

/// A short summary of a response body for error details.
pub fn truncate_summary(summary: &str) -> (r: String)
    ensures
        r@ == truncated(summary@),
{
    let cs = chars_of(summary);
    if cs.len() > 512 {
        let mut r = string_from_range(cs.as_slice(), 0, 512);
        push_str(&mut r, "...");
        assert(cs@.subrange(0, 512) == summary@.take(512));
        r
    } else {
        string_from_range(cs.as_slice(), 0, cs.len())
    }
}

/// A response body with every occurrence of the API token, then of the
/// email, replaced by `[redacted]`.
pub open spec fn sanitized(body: Seq<char>, api_token: Seq<char>, email: Seq<char>) -> Seq<
    char,
> {
    replace_all(replace_all(body, api_token, "[redacted]"@), email, "[redacted]"@)
}

/// A response body with the credentials blanked out.
pub fn sanitize_response_body(body: &str, api_token: &str, email: &str) -> (r: String)
    ensures
        r@ == sanitized(body@, api_token@, email@),
{
    let once = replace_str(body, api_token, "[redacted]");
    replace_str(once.as_str(), email, "[redacted]")
}

/// The sanitized body holds neither credential: every occurrence of the API
/// token and of the email is gone, and the `[redacted]` markers put in their
/// place do not form a new one. This holds for non-empty credentials that
/// contain no square bracket and do not occur in `[redacted]` itself.
pub proof fn lemma_sanitized_hides_credentials(
    body: Seq<char>,
    api_token: Seq<char>,
    email: Seq<char>,
)
    requires
        api_token.len() > 0,
        email.len() > 0,
        lacks_char(api_token, '['),
        lacks_char(api_token, ']'),
        lacks_char(email, '['),
        lacks_char(email, ']'),
        !contains_seq("[redacted]"@, api_token),
        !contains_seq("[redacted]"@, email),
    ensures
        !contains_seq(sanitized(body, api_token, email), api_token),
        !contains_seq(sanitized(body, api_token, email), email),
{
    reveal_strlit("[redacted]");
    let marker = "[redacted]"@;
    assert(marker[0] == '[' && marker.last() == ']');
    let once = replace_all(body, api_token, marker);
    lemma_replace_all_leaves_no_pattern(body, api_token, marker);
    lemma_replace_all_keeps_absent(once, email, marker, api_token);
    lemma_replace_all_leaves_no_pattern(once, email, marker);
}

/// Truncation adds no occurrence of a text that does not end with `.`.
proof fn lemma_truncated_keeps_absent(s: Seq<char>, q: Seq<char>)
    requires
        q.len() > 0,
        q.last() != '.',
        !contains_seq(s, q),
    ensures
        !contains_seq(truncated(s), q),
{
    if s.len() > summary_limit() {
        reveal_strlit("...");
        let t = truncated(s);
        let n = summary_limit() as int;
        assert forall|i: int| !occurs_at(t, q, i) by {
            if occurs_at(t, q, i) {
                if i + q.len() <= n {
                    assert(t.subrange(i, i + q.len()) =~= s.subrange(i, i + q.len()));
                    assert(occurs_at(s, q, i));
                } else {
                    assert(t.subrange(i, i + q.len())[q.len() - 1] == t[i + q.len() - 1]);
                    assert(t[i + q.len() - 1] == '.');
                }
            }
        }
    }
}

/// The response summary in the details of a failed request holds neither
/// credential, for non-empty credentials that contain no square bracket, do
/// not occur in `[redacted]` and do not end with `.`.
pub proof fn lemma_failure_summary_hides_credentials(
    body: Seq<char>,
    api_token: Seq<char>,
    email: Seq<char>,
)
    requires
        api_token.len() > 0,
        email.len() > 0,
        lacks_char(api_token, '['),
        lacks_char(api_token, ']'),
        lacks_char(email, '['),
        lacks_char(email, ']'),
        !contains_seq("[redacted]"@, api_token),
        !contains_seq("[redacted]"@, email),
        api_token.last() != '.',
        email.last() != '.',
    ensures
        !contains_seq(truncated(sanitized(body, api_token, email)), api_token),
        !contains_seq(truncated(sanitized(body, api_token, email)), email),
{
    lemma_sanitized_hides_credentials(body, api_token, email);
    lemma_truncated_keeps_absent(sanitized(body, api_token, email), api_token);
    lemma_truncated_keeps_absent(sanitized(body, api_token, email), email);
}

/// The error details of a failed response.
pub open spec fn status_details(status: u16, summary: Seq<char>) -> JsonValue {
    JsonValue::Object(
        seq![
            ("status"@, number_value(status as nat)),
            ("response_body"@, JsonValue::Str(truncated(summary))),
        ],
    )
}

/// `e` reports that `method` on `path` failed with `status`, `summary`
/// being the (sanitized) response body.
pub open spec fn is_status_error(
    e: AppError,
    method: HttpMethod,
    path: Seq<char>,
    status: u16,
    summary: Seq<char>,
) -> bool {
    let code = status_code_for(method, path, status);
    &&& e.code == code
    &&& e.message@ == status_message(code, status)
    &&& e.retryable == is_retryable_code(code)
    &&& e.details@ == redact(status_details(status, summary))
}

/// The error for a response that failed with `status`.
pub fn status_error(method: HttpMethod, path: &str, status: u16, summary: &str) -> (e: AppError)
    requires
        100 <= status <= 999,
    ensures
        is_status_error(e, method, path@, status, summary@),
{
    let code = status_error_code(method, path, status);
    let message = if code == ErrorCode::ConfluenceVersionConflict {
        owned("Page was updated by someone else. Fetch the latest version and retry.")
    } else {
        let mut m = concat("Confluence returned HTTP ", decimal_string(status as u64).as_str());
        push_str(&mut m, " ");
        match reason_phrase(status) {
            Some(r) => push_str(&mut m, r.as_str()),
            None => push_str(&mut m, "<unknown status code>"),
        }
        push_str(&mut m, ".");
        assert(m@ =~= "Confluence returned HTTP "@ + status_text(status) + "."@);
        m
    };
    let retryable = code == ErrorCode::NetworkError || code == ErrorCode::RateLimited || code
        == ErrorCode::ConfluenceVersionConflict;
    let mut details = ObjectBuilder::new();
    details.add("status", Json::number(status as u64));
    let truncated_body = truncate_summary(summary);
    details.add("response_body", Json::Str(truncated_body));
    let dj = details.build();
    assert(dj@->Object_0 =~= status_details(status, summary@)->Object_0);
    AppError::new(code, message).with_retryable(retryable).with_details(dj)
}

/// Whether a status reports success (2xx).
pub fn is_success_status(status: u16) -> (r: bool)
    ensures
        r == (200 <= status <= 299),
{
    200 <= status && status <= 299
}

/// The error for a failed response: its body, when it could be read, is
/// sanitized of both credentials before a summary of it is attached.
pub fn response_failure(
    method: HttpMethod,
    path: &str,
    status: u16,
    body: Option<String>,
    api_token: &str,
    email: &str,
) -> (e: AppError)
    requires
        100 <= status <= 999,
    ensures
        is_status_error(
            e,
            method,
            path@,
            status,
            match body {
                Some(b) => sanitized(b@, api_token@, email@),
                None => Seq::empty(),
            },
        ),
{
    let summary = match &body {
        Some(b) => sanitize_response_body(b.as_str(), api_token, email),
        None => String::new(),
    };
    status_error(method, path, status, summary.as_str())
}

/// The error for a request that never got a response.
pub fn transport_error(detail: &str) -> (e: AppError)
    ensures
        e.code == ErrorCode::NetworkError,
        e.message@ == "Failed to reach Confluence: "@ + detail@,
        e.retryable,
        e.details@ == crate::error::empty_object(),
{
    AppError::new(ErrorCode::NetworkError, concat("Failed to reach Confluence: ", detail)).with_retryable(true)
}

/// The error for a successful response whose JSON could not be read.
pub fn response_json_error(detail: &str) -> (e: AppError)
    ensures
        e.code == ErrorCode::ConfluenceValidationFailed,
        e.message@ == "Failed to parse Confluence response JSON: "@ + detail@,
        !e.retryable,
{
    AppError::new(
        ErrorCode::ConfluenceValidationFailed,
        concat("Failed to parse Confluence response JSON: ", detail),
    )
}


/// The lookup finds the first listed space whose key matches, wherever it
/// stands in the list, and fails only when no listed space has the key.
pub proof fn lemma_first_space_with_key_finds_first_match(spaces: Seq<Space>, key: Seq<char>)
    ensures
        forall|j: int|
            0 <= j < spaces.len() && spaces[j].key@ == key && (forall|m: int|
                0 <= m < j ==> spaces[m].key@ != key) ==> first_space_with_key(spaces, key)
                == Some(#[trigger] spaces[j].id@),
        (forall|j: int| 0 <= j < spaces.len() ==> spaces[j].key@ != key) ==> first_space_with_key(
            spaces,
            key,
        ) is None,
    decreases spaces.len(),
{
    if spaces.len() > 0 {
        let rest = spaces.drop_first();
        lemma_first_space_with_key_finds_first_match(rest, key);
        assert forall|j: int|
            0 <= j < spaces.len() && spaces[j].key@ == key && (forall|m: int|
                0 <= m < j ==> spaces[m].key@ != key) implies first_space_with_key(spaces, key)
            == Some(#[trigger] spaces[j].id@) by {
            if j > 0 {
                assert(spaces[0].key@ != key);
                assert(rest[j - 1] == spaces[j]);
                assert forall|m: int| 0 <= m < j - 1 implies rest[m].key@ != key by {
                    assert(rest[m] == spaces[m + 1]);
                }
            }
        }
        if forall|j: int| 0 <= j < spaces.len() ==> spaces[j].key@ != key {
            assert(spaces[0].key@ != key);
            assert forall|j: int| 0 <= j < rest.len() implies rest[j].key@ != key by {
                assert(rest[j] == spaces[j + 1]);
            }
        }
    }
}

} // verus!

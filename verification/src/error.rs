//! Stable error codes and the application error carried to the JSON envelope.
use vstd::prelude::*;
use crate::json::{Json, JsonValue};
use crate::redact::{lemma_redact_hides_secrets, redact, redact_value, secrets_hidden};
use crate::text::{concat, push_str};

verus! {

/// The stable error codes that callers match on.
#[derive(Debug, Clone, Copy, PartialEq, Eq, Structural)]
pub enum ErrorCode {
    ConfigNotFound,
    ConfigInvalid,
    AuthFailed,
    PermissionDenied,
    NotFound,
    RateLimited,
    ConfluenceValidationFailed,
    ConfluenceVersionConflict,
    NetworkError,
    MarkdownConversionFailed,
    UnsupportedMarkdown,
    InternalError,
}

impl ErrorCode {
    /// The snake_case name of the code, as it appears in `error.code`.
    pub open spec fn code_text(self) -> Seq<char> {
        match self {
            ErrorCode::ConfigNotFound => "config_not_found"@,
            ErrorCode::ConfigInvalid => "config_invalid"@,
            ErrorCode::AuthFailed => "auth_failed"@,
            ErrorCode::PermissionDenied => "permission_denied"@,
            ErrorCode::NotFound => "not_found"@,
            ErrorCode::RateLimited => "rate_limited"@,
            ErrorCode::ConfluenceValidationFailed => "confluence_validation_failed"@,
            ErrorCode::ConfluenceVersionConflict => "confluence_version_conflict"@,
            ErrorCode::NetworkError => "network_error"@,
            ErrorCode::MarkdownConversionFailed => "markdown_conversion_failed"@,
            ErrorCode::UnsupportedMarkdown => "unsupported_markdown"@,
            ErrorCode::InternalError => "internal_error"@,
        }
    }

    /// Distinct codes have distinct names, so a caller can tell every error
    /// apart by its code alone.
    pub proof fn lemma_code_text_distinct(a: ErrorCode, b: ErrorCode)
        requires
            a != b,
        ensures
            a.code_text() != b.code_text(),
    {
        reveal_strlit("config_not_found");
        reveal_strlit("config_invalid");
        reveal_strlit("auth_failed");
        reveal_strlit("permission_denied");
        reveal_strlit("not_found");
        reveal_strlit("rate_limited");
        reveal_strlit("confluence_validation_failed");
        reveal_strlit("confluence_version_conflict");
        reveal_strlit("network_error");
        reveal_strlit("markdown_conversion_failed");
        reveal_strlit("unsupported_markdown");
        reveal_strlit("internal_error");
        if a.code_text().len() == b.code_text().len() {
            assert(a.code_text()[0] != b.code_text()[0]);
        }
    }

    pub fn as_str(self) -> (s: &'static str)
        ensures
            s@ == self.code_text(),
    {
        match self {
            ErrorCode::ConfigNotFound => "config_not_found",
            ErrorCode::ConfigInvalid => "config_invalid",
            ErrorCode::AuthFailed => "auth_failed",
            ErrorCode::PermissionDenied => "permission_denied",
            ErrorCode::NotFound => "not_found",
            ErrorCode::RateLimited => "rate_limited",
            ErrorCode::ConfluenceValidationFailed => "confluence_validation_failed",
            ErrorCode::ConfluenceVersionConflict => "confluence_version_conflict",
            ErrorCode::NetworkError => "network_error",
            ErrorCode::MarkdownConversionFailed => "markdown_conversion_failed",
            ErrorCode::UnsupportedMarkdown => "unsupported_markdown",
            ErrorCode::InternalError => "internal_error",
        }
    }
}

/// An application error: a stable code, a human message, whether a retry may
/// help, and structured details.
#[derive(Debug)]
pub struct AppError {
    pub code: ErrorCode,
    pub message: String,
    pub retryable: bool,
    pub details: Json,
}

/// The empty JSON object.
pub open spec fn empty_object() -> JsonValue {
    JsonValue::Object(Seq::empty())
}

impl AppError {
    /// An error with `code` and `message`, not retryable, with empty details.
    pub fn new(code: ErrorCode, message: String) -> (e: AppError)
        ensures
            e.code == code,
            e.message@ == message@,
            !e.retryable,
            e.details@ == empty_object(),
    {
        let details = Json::Object(Vec::new());
        assert(details@->Object_0 =~= Seq::<(Seq<char>, JsonValue)>::empty());
        AppError { code, message, retryable: false, details }
    }

    /// The same error with `retryable` set.
    pub fn with_retryable(self, retryable: bool) -> (e: AppError)
        ensures
            e.code == self.code,
            e.message == self.message,
            e.retryable == retryable,
            e.details == self.details,
    {
        let mut e = self;
        e.retryable = retryable;
        e
    }

    /// The same error with `details` attached, after every credential-like
    /// member has been redacted.
    pub fn with_details(self, details: Json) -> (e: AppError)
        ensures
            e.code == self.code,
            e.message == self.message,
            e.retryable == self.retryable,
            e.details@ == redact(details@),
            secrets_hidden(e.details@),
    {
        let mut e = self;
        e.details = redact_value(details);
        proof {
            lemma_redact_hides_secrets(details@);
        }
        e
    }

    /// `code: message`, the text form of the error.
    pub fn to_display_string(&self) -> (s: String)
        ensures
            s@ == self.code.code_text() + ": "@ + self.message@,
    {
        let mut s = concat(self.code.as_str(), ": ");
        push_str(&mut s, self.message.as_str());
        s
    }
}

/// The `error` member of a failure envelope.
#[derive(Debug)]
pub struct ErrorBody {
    pub code: &'static str,
    pub message: String,
    pub retryable: bool,
    pub details: Json,
}

impl ErrorBody {
    /// The body that reports `error`.
    pub fn from_error(error: &AppError) -> (b: ErrorBody)
        ensures
            b.code@ == error.code.code_text(),
            b.message@ == error.message@,
            b.retryable == error.retryable,
            b.details@ == error.details@,
    {
        ErrorBody {
            code: error.code.as_str(),
            message: error.message.clone(),
            retryable: error.retryable,
            details: error.details.deep_copy(),
        }
    }
}

} // verus!

//! The stable JSON envelopes of the command line.
use vstd::prelude::*;
use crate::error::{AppError, ErrorBody};
use crate::json::{Json, JsonValue, ObjectBuilder};
use crate::redact::{is_sensitive_key, lemma_plain_key_not_sensitive, redacted_text, secrets_hidden};
use crate::text::ascii_lower;

verus! {

broadcast use vstd::string::group_string_axioms;

/// `{"ok": true, "command": ..., "dry_run": ..., "data": ...}`.
pub open spec fn success_envelope(command: Seq<char>, dry_run: bool, data: JsonValue) -> JsonValue {
    JsonValue::Object(
        seq![
            ("ok"@, JsonValue::Bool(true)),
            ("command"@, JsonValue::Str(command)),
            ("dry_run"@, JsonValue::Bool(dry_run)),
            ("data"@, data),
        ],
    )
}

/// `{"code": ..., "message": ..., "retryable": ..., "details": ...}`.
pub open spec fn error_body_value(error: AppError) -> JsonValue {
    JsonValue::Object(
        seq![
            ("code"@, JsonValue::Str(error.code.code_text())),
            ("message"@, JsonValue::Str(error.message@)),
            ("retryable"@, JsonValue::Bool(error.retryable)),
            ("details"@, error.details@),
        ],
    )
}

/// `{"ok": false, "command": ..., "error": {...}}`.
pub open spec fn error_envelope(command: Seq<char>, error: AppError) -> JsonValue {
    JsonValue::Object(
        seq![
            ("ok"@, JsonValue::Bool(false)),
            ("command"@, JsonValue::Str(command)),
            ("error"@, error_body_value(error)),
        ],
    )
}

/// The success envelope for `command`.
pub fn success_json(command: &str, dry_run: bool, data: Json) -> (j: Json)
    ensures
        j@ == success_envelope(command@, dry_run, data@),
{
    let mut b = ObjectBuilder::new();
    b.add("ok", Json::Bool(true));
    b.add("command", Json::text(command));
    b.add("dry_run", Json::Bool(dry_run));
    b.add("data", data);
    let j = b.build();
    assert(j@->Object_0 =~= success_envelope(command@, dry_run, data@)->Object_0);
    j
}

/// The failure envelope reporting `error` for `command`.
pub fn error_json(command: &str, error: &AppError) -> (j: Json)
    ensures
        j@ == error_envelope(command@, *error),
{
    let body = ErrorBody::from_error(error);
    let mut e = ObjectBuilder::new();
    e.add("code", Json::text(body.code));
    e.add("message", Json::Str(body.message));
    e.add("retryable", Json::Bool(body.retryable));
    e.add("details", body.details);
    let ej = e.build();
    assert(ej@->Object_0 =~= error_body_value(*error)->Object_0);
    let mut b = ObjectBuilder::new();
    b.add("ok", Json::Bool(false));
    b.add("command", Json::text(command));
    b.add("error", ej);
    let j = b.build();
    assert(j@->Object_0 =~= error_envelope(command@, *error)->Object_0);
    j
}


proof fn lemma_envelope_keys_plain()
    ensures
        !is_sensitive_key("ok"@),
        !is_sensitive_key("command"@),
        !is_sensitive_key("dry_run"@),
        !is_sensitive_key("data"@),
        !is_sensitive_key("error"@),
        !is_sensitive_key("code"@),
        !is_sensitive_key("message"@),
        !is_sensitive_key("retryable"@),
        !is_sensitive_key("details"@),
{
    reveal_strlit("ok");
    reveal_strlit("command");
    reveal_strlit("dry_run");
    reveal_strlit("data");
    reveal_strlit("error");
    reveal_strlit("code");
    reveal_strlit("message");
    reveal_strlit("retryable");
    reveal_strlit("details");
    assert(ascii_lower("ok"@) =~= "ok"@);
    assert(ascii_lower("command"@) =~= "command"@);
    assert(ascii_lower("dry_run"@) =~= "dry_run"@);
    assert(ascii_lower("data"@) =~= "data"@);
    assert(ascii_lower("error"@) =~= "error"@);
    assert(ascii_lower("code"@) =~= "code"@);
    assert(ascii_lower("message"@) =~= "message"@);
    assert(ascii_lower("retryable"@) =~= "retryable"@);
    assert(ascii_lower("details"@) =~= "details"@);
    lemma_plain_key_not_sensitive("ok"@);
    lemma_plain_key_not_sensitive("command"@);
    lemma_plain_key_not_sensitive("dry_run"@);
    lemma_plain_key_not_sensitive("data"@);
    lemma_plain_key_not_sensitive("error"@);
    lemma_plain_key_not_sensitive("code"@);
    lemma_plain_key_not_sensitive("message"@);
    lemma_plain_key_not_sensitive("retryable"@);
    lemma_plain_key_not_sensitive("details"@);
}

/// A success envelope shows a secret only where its data does: none of
/// the envelope's own member names is credential-like.
pub proof fn lemma_success_envelope_hides_secrets(command: Seq<char>, dry_run: bool, data: JsonValue)
    requires
        secrets_hidden(data),
    ensures
        secrets_hidden(success_envelope(command, dry_run, data)),
{
    lemma_envelope_keys_plain();
    let members = success_envelope(command, dry_run, data)->Object_0;
    assert forall|i: int| 0 <= i < members.len() implies {
        &&& (is_sensitive_key(#[trigger] members[i].0) ==> members[i].1 == JsonValue::Str(redacted_text()))
        &&& secrets_hidden(members[i].1)
    } by {
        if i == 3 {
            assert(members[i].1 == data);
        }
    }
}

/// A failure envelope shows no secret when its error's details show none:
/// none of the envelope's own member names is credential-like.
pub proof fn lemma_error_envelope_hides_secrets(command: Seq<char>, error: AppError)
    requires
        secrets_hidden(error.details@),
    ensures
        secrets_hidden(error_envelope(command, error)),
{
    lemma_envelope_keys_plain();
    let body = error_body_value(error);
    let inner = body->Object_0;
    assert forall|i: int| 0 <= i < inner.len() implies {
        &&& (is_sensitive_key(#[trigger] inner[i].0) ==> inner[i].1 == JsonValue::Str(redacted_text()))
        &&& secrets_hidden(inner[i].1)
    } by {
        if i == 3 {
            assert(inner[i].1 == error.details@);
        }
    }
    assert(secrets_hidden(body));
    let members = error_envelope(command, error)->Object_0;
    assert forall|i: int| 0 <= i < members.len() implies {
        &&& (is_sensitive_key(#[trigger] members[i].0) ==> members[i].1 == JsonValue::Str(redacted_text()))
        &&& secrets_hidden(members[i].1)
    } by {
        if i == 2 {
            assert(members[i].1 == body);
        }
    }
}

} // verus!

//! Redaction of credential-like members in JSON error details.
use vstd::prelude::*;
use crate::json::{Json, JsonValue};
use crate::text::{ascii_lower, contains_seq, chars_of, contains, lacks_char, lower_chars, occurs_at};

verus! {

broadcast use vstd::string::group_string_axioms;

/// The text that replaces a redacted value.
pub open spec fn redacted_text() -> Seq<char> {
    "[redacted]"@
}

/// A member name that may carry a credential: after ASCII lower-casing it
/// mentions `authorization`, `token` or `secret`.
pub open spec fn is_sensitive_key(key: Seq<char>) -> bool {
    let lower = ascii_lower(key);
    contains_seq(lower, "authorization"@) || contains_seq(lower, "token"@) || contains_seq(
        lower,
        "secret"@,
    )
}

/// `v` with the value of every sensitive member, at any depth, replaced by
/// the string `[redacted]`.
pub open spec fn redact(v: JsonValue) -> JsonValue
    decreases v,
{
    match v {
        JsonValue::Array(items) => JsonValue::Array(
            Seq::new(
                items.len(),
                |i: int|
                    if 0 <= i < items.len() {
                        redact(items[i])
                    } else {
                        JsonValue::Null
                    },
            ),
        ),
        JsonValue::Object(members) => JsonValue::Object(
            Seq::new(
                members.len(),
                |i: int|
                    if 0 <= i < members.len() {
                        (
                            members[i].0,
                            if is_sensitive_key(members[i].0) {
                                JsonValue::Str(redacted_text())
                            } else {
                                redact(members[i].1)
                            },
                        )
                    } else {
                        (Seq::empty(), JsonValue::Null)
                    },
            ),
        ),
        _ => v,
    }
}

/// Every sensitive member of `v`, at any depth, holds exactly `[redacted]`.
pub open spec fn secrets_hidden(v: JsonValue) -> bool
    decreases v,
{
    match v {
        JsonValue::Array(items) => forall|i: int|
            0 <= i < items.len() ==> secrets_hidden(#[trigger] items[i]),
        JsonValue::Object(members) => forall|i: int|
            0 <= i < members.len() ==> {
                &&& (is_sensitive_key(#[trigger] members[i].0) ==> members[i].1 == JsonValue::Str(
                    redacted_text(),
                ))
                &&& secrets_hidden(members[i].1)
            },
        _ => true,
    }
}

/// `v` has no sensitive member at any depth.
pub open spec fn has_no_sensitive_keys(v: JsonValue) -> bool
    decreases v,
{
    match v {
        JsonValue::Array(items) => forall|i: int|
            0 <= i < items.len() ==> has_no_sensitive_keys(#[trigger] items[i]),
        JsonValue::Object(members) => forall|i: int|
            0 <= i < members.len() ==> {
                &&& !is_sensitive_key(#[trigger] members[i].0)
                &&& has_no_sensitive_keys(members[i].1)
            },
        _ => true,
    }
}

/// Whether a member name may carry a credential.
pub fn sensitive_key(key: &str) -> (r: bool)
    ensures
        r == is_sensitive_key(key@),
{
    let lower = lower_chars(key);
    contains(lower.as_slice(), "authorization") || contains(lower.as_slice(), "token") || contains(
        lower.as_slice(),
        "secret",
    )
}

#[verifier::loop_isolation(false)]
fn redact_ref(value: &Json) -> (r: Json)
    ensures
        r@ == redact(value@),
    decreases value,
{
    match value {
        Json::Null => Json::Null,
        Json::Bool(b) => Json::Bool(*b),
        Json::Number(n) => Json::Number(n.clone()),
        Json::Str(s) => Json::Str(s.clone()),
        Json::Array(items) => {
            let mut out: Vec<Json> = Vec::new();
            let mut i: usize = 0;
            while i < items.len()
                invariant
                    i <= items@.len(),
                    out@.len() == i,
                    forall|k: int| 0 <= k < i ==> (#[trigger] out@[k])@ == redact(items@[k]@),
                decreases items.len() - i,
            {
                assert(decreases_to!(*value => *items));
                assert(decreases_to!(*items => items@));
                assert(decreases_to!(items@ => items@[i as int]));
                assert(decreases_to!(value => items@[i as int]));
                let item = redact_ref(&items[i]);
                out.push(item);
                i = i + 1;
            }
            let r = Json::Array(out);
            assert(r@ == redact(value@)) by {
                if let JsonValue::Array(vs) = value@ {
                    assert(r@->Array_0 =~= redact(value@)->Array_0);
                }
            }
            r
        },
        Json::Object(members) => {
            let mut out: Vec<(String, Json)> = Vec::new();
            let mut i: usize = 0;
            while i < members.len()
                invariant
                    i <= members@.len(),
                    out@.len() == i,
                    forall|k: int|
                        0 <= k < i ==> (#[trigger] out@[k]).0@ == members@[k].0@ && out@[k].1@ == (
                        if is_sensitive_key(members@[k].0@) {
                            JsonValue::Str(redacted_text())
                        } else {
                            redact(members@[k].1@)
                        }),
                decreases members.len() - i,
            {
                let key = members[i].0.clone();
                let item = if sensitive_key(key.as_str()) {
                    Json::Str(crate::text::owned("[redacted]"))
                } else {
                    assert(decreases_to!(*value => *members));
                    assert(decreases_to!(*members => members@));
                    assert(decreases_to!(members@ => members@[i as int]));
                    assert(decreases_to!(members@[i as int] => members@[i as int].1));
                    assert(decreases_to!(value => members@[i as int].1));
                    redact_ref(&members[i].1)
                };
                out.push((key, item));
                i = i + 1;
            }
            let r = Json::Object(out);
            assert(r@ == redact(value@)) by {
                assert(r@->Object_0 =~= redact(value@)->Object_0);
            }
            r
        },
    }
}

/// `value` with every credential-like member replaced by `[redacted]`.
pub fn redact_value(value: Json) -> (r: Json)
    ensures
        r@ == redact(value@),
{
    redact_ref(&value)
}


/// Redaction leaves no credential behind: in `redact(v)` every sensitive
/// member, at any depth, holds `[redacted]`.
pub proof fn lemma_redact_hides_secrets(v: JsonValue)
    ensures
        secrets_hidden(redact(v)),
    decreases v,
{
    let r = redact(v);
    match v {
        JsonValue::Array(items) => {
            let rs = r->Array_0;
            assert(rs.len() == items.len());
            assert forall|i: int| 0 <= i < rs.len() implies secrets_hidden(#[trigger] rs[i]) by {
                lemma_redact_hides_secrets(items[i]);
            }
        },
        JsonValue::Object(members) => {
            let rm = r->Object_0;
            assert forall|i: int| 0 <= i < members.len() implies {
                &&& (is_sensitive_key(#[trigger] rm[i].0) ==> rm[i].1 == JsonValue::Str(
                    redacted_text(),
                ))
                &&& secrets_hidden(rm[i].1)
            } by {
                if !is_sensitive_key(members[i].0) {
                    lemma_redact_hides_secrets(members[i].1);
                }
            }
        },
        _ => {},
    }
}

/// Redacting twice is the same as redacting once.
pub proof fn lemma_redact_idempotent(v: JsonValue)
    ensures
        redact(redact(v)) == redact(v),
    decreases v,
{
    let r = redact(v);
    match v {
        JsonValue::Array(items) => {
            assert forall|i: int| 0 <= i < items.len() implies redact(r->Array_0[i])
                == r->Array_0[i] by {
                lemma_redact_idempotent(items[i]);
            }
            assert(redact(r)->Array_0 =~= r->Array_0);
        },
        JsonValue::Object(members) => {
            let rm = r->Object_0;
            assert forall|i: int| 0 <= i < members.len() implies (if is_sensitive_key(rm[i].0) {
                JsonValue::Str(redacted_text())
            } else {
                redact(rm[i].1)
            }) == rm[i].1 by {
                if !is_sensitive_key(members[i].0) {
                    lemma_redact_idempotent(members[i].1);
                }
            }
            assert(redact(r)->Object_0 =~= rm);
        },
        _ => {},
    }
}

/// A document without credential-like members passes through unchanged.
pub proof fn lemma_redact_keeps_clean_documents(v: JsonValue)
    requires
        has_no_sensitive_keys(v),
    ensures
        redact(v) == v,
    decreases v,
{
    match v {
        JsonValue::Array(items) => {
            assert forall|i: int| 0 <= i < items.len() implies redact(items[i]) == items[i] by {
                assert(has_no_sensitive_keys(items[i]));
                lemma_redact_keeps_clean_documents(items[i]);
            }
            assert(redact(v)->Array_0 =~= items);
        },
        JsonValue::Object(members) => {
            assert forall|i: int| 0 <= i < members.len() implies redact(members[i].1)
                == members[i].1 by {
                assert(!is_sensitive_key(members[i].0));
                lemma_redact_keeps_clean_documents(members[i].1);
            }
            assert(redact(v)->Object_0 =~= members);
        },
        _ => {},
    }
}


/// A text in which some character of `p` never appears does not contain `p`.
proof fn lemma_missing_char_excludes(s: Seq<char>, p: Seq<char>, j: int)
    requires
        0 <= j < p.len(),
        lacks_char(s, p[j]),
    ensures
        !contains_seq(s, p),
{
    assert forall|i: int| !occurs_at(s, p, i) by {
        if occurs_at(s, p, i) {
            assert(s.subrange(i, i + p.len())[j] == s[i + j]);
        }
    }
}

/// A lower-case member name is not credential-like when it is too short
/// for `token` or has no `k`, has no `z`, and has no `s` or no `c`.
pub proof fn lemma_plain_key_not_sensitive(key: Seq<char>)
    requires
        ascii_lower(key) == key,
        key.len() < 5 || lacks_char(key, 'k'),
        lacks_char(key, 'z'),
        lacks_char(key, 's') || lacks_char(key, 'c'),
    ensures
        !is_sensitive_key(key),
{
    reveal_strlit("authorization");
    reveal_strlit("token");
    reveal_strlit("secret");
    if key.len() >= 5 {
        lemma_missing_char_excludes(key, "token"@, 2);
    }
    lemma_missing_char_excludes(key, "authorization"@, 7);
    if lacks_char(key, 's') {
        lemma_missing_char_excludes(key, "secret"@, 0);
    } else {
        lemma_missing_char_excludes(key, "secret"@, 2);
    }
}

} // verus!

//! Basic authentication for Confluence Cloud: `email:api_token`, base64.
use vstd::prelude::*;
use crate::error::{AppError, ErrorCode};
use crate::text::{concat, owned, push_str};
use base64::Engine;
use reqwest::header::HeaderValue;

verus! {

broadcast use vstd::string::group_string_axioms;

#[verifier::external_type_specification]
#[verifier::external_body]
pub struct ExHeaderValue(HeaderValue);

/// A character of the standard base64 alphabet, or the `=` padding.
pub open spec fn is_base64_char(c: char) -> bool {
    ('A' <= c && c <= 'Z') || ('a' <= c && c <= 'z') || ('0' <= c && c <= '9') || c == '+' || c
        == '/' || c == '='
}

/// The character of a six-bit value in the standard base64 alphabet
/// (RFC 4648): `A`-`Z`, `a`-`z`, `0`-`9`, `+`, `/`.
pub open spec fn base64_digit(n: int) -> char {
    if n < 26 {
        (('A' as int) + n) as char
    } else if n < 52 {
        (('a' as int) + n - 26) as char
    } else if n < 62 {
        (('0' as int) + n - 52) as char
    } else if n == 62 {
        '+'
    } else {
        '/'
    }
}

/// Standard base64 with `=` padding (RFC 4648): every three bytes become
/// four characters; a last group of one or two bytes is padded.
pub open spec fn base64_standard(bytes: Seq<u8>) -> Seq<char>
    decreases bytes.len(),
{
    if bytes.len() == 0 {
        Seq::empty()
    } else if bytes.len() == 1 {
        let b0 = bytes[0] as int;
        seq![base64_digit(b0 / 4), base64_digit((b0 % 4) * 16), '=', '=']
    } else if bytes.len() == 2 {
        let (b0, b1) = (bytes[0] as int, bytes[1] as int);
        seq![base64_digit(b0 / 4), base64_digit((b0 % 4) * 16 + b1 / 16), base64_digit((b1 % 16) * 4), '=']
    } else {
        let (b0, b1, b2) = (bytes[0] as int, bytes[1] as int, bytes[2] as int);
        seq![
            base64_digit(b0 / 4),
            base64_digit((b0 % 4) * 16 + b1 / 16),
            base64_digit((b1 % 16) * 4 + b2 / 64),
            base64_digit(b2 % 64),
        ] + base64_standard(bytes.skip(3))
    }
}

proof fn lemma_base64_digit_in_alphabet(n: int)
    requires
        0 <= n < 64,
    ensures
        is_base64_char(base64_digit(n)),
{
}

/// Every character of a base64 text is in the alphabet or is `=`.
proof fn lemma_base64_alphabet(bytes: Seq<u8>)
    ensures
        forall|i: int| 0 <= i < base64_standard(bytes).len() ==> is_base64_char(
            #[trigger] base64_standard(bytes)[i],
        ),
    decreases bytes.len(),
{
    if bytes.len() == 0 {
    } else if bytes.len() == 1 {
        let b0 = bytes[0] as int;
        lemma_base64_digit_in_alphabet(b0 / 4);
        lemma_base64_digit_in_alphabet((b0 % 4) * 16);
    } else if bytes.len() == 2 {
        let (b0, b1) = (bytes[0] as int, bytes[1] as int);
        lemma_base64_digit_in_alphabet(b0 / 4);
        lemma_base64_digit_in_alphabet((b0 % 4) * 16 + b1 / 16);
        lemma_base64_digit_in_alphabet((b1 % 16) * 4);
    } else {
        let (b0, b1, b2) = (bytes[0] as int, bytes[1] as int, bytes[2] as int);
        lemma_base64_digit_in_alphabet(b0 / 4);
        lemma_base64_digit_in_alphabet((b0 % 4) * 16 + b1 / 16);
        lemma_base64_digit_in_alphabet((b1 % 16) * 4 + b2 / 64);
        lemma_base64_digit_in_alphabet(b2 % 64);
        lemma_base64_alphabet(bytes.skip(3));
        let head = seq![
            base64_digit(b0 / 4),
            base64_digit((b0 % 4) * 16 + b1 / 16),
            base64_digit((b1 % 16) * 4 + b2 / 64),
            base64_digit(b2 % 64),
        ];
        let tail = base64_standard(bytes.skip(3));
        assert forall|i: int| 0 <= i < base64_standard(bytes).len() implies is_base64_char(
            #[trigger] base64_standard(bytes)[i],
        ) by {
            if i >= 4 {
                assert(base64_standard(bytes)[i] == tail[i - 4]);
            } else {
                assert(base64_standard(bytes)[i] == head[i]);
            }
        }
    }
}

/// Calls `STANDARD.encode`, which encodes with the RFC 4648 standard
/// alphabet and `=` padding, as the crate documents for this engine. The
/// input is short enough that the encoder's output length cannot overflow,
/// where it would panic.
#[verifier::external_body]
fn encode_base64(bytes: &[u8]) -> (r: String)
    requires
        bytes@.len() <= usize::MAX / 2,
    ensures
        r@ == base64_standard(bytes@),
{
    base64::engine::general_purpose::STANDARD.encode(bytes)
}

/// A byte `http::HeaderValue` accepts: visible ASCII, tab, or 128 and above.
pub open spec fn is_header_byte(b: u8) -> bool {
    (b >= 32 && b != 127) || b == 9
}

/// The bytes that a `HeaderValue` holds, as `HeaderValue::as_bytes` gives them.
pub uninterp spec fn header_bytes(v: HeaderValue) -> Seq<u8>;

/// Calls `HeaderValue::from_str`, which, as its source shows, succeeds
/// exactly when every byte of `text` is accepted, and then holds a copy of
/// the UTF-8 bytes of `text`.
#[verifier::external_body]
fn header_value(text: &str) -> (r: Option<HeaderValue>)
    ensures
        r is Some <==> forall|i: int|
            0 <= i < vstd::utf8::encode_utf8(text@).len() ==> is_header_byte(#[trigger] vstd::utf8::encode_utf8(text@)[i]),
        r matches Some(v) ==> header_bytes(v) == vstd::utf8::encode_utf8(text@),
{
    HeaderValue::from_str(text).ok()
}

/// The credential text `email:api_token`.
pub open spec fn credential(email: Seq<char>, api_token: Seq<char>) -> Seq<char> {
    email + ":"@ + api_token
}

/// `Basic ` followed by the base64 of the credential's UTF-8 bytes.
pub open spec fn basic_auth_text(email: Seq<char>, api_token: Seq<char>) -> Seq<char> {
    "Basic "@ + base64_standard(vstd::utf8::encode_utf8(credential(email, api_token)))
}

/// The `Authorization` header text for `email` and `api_token`.
pub fn basic_auth_value(email: &str, api_token: &str) -> (r: String)
    requires
        vstd::utf8::encode_utf8(email@).len() + vstd::utf8::encode_utf8(api_token@).len()
            < usize::MAX / 4,
    ensures
        r@ == basic_auth_text(email@, api_token@),
        forall|i: int| 0 <= i < r@.len() ==> ' ' <= #[trigger] r@[i] && r@[i] <= '~',
{
    let mut cred = concat(email, ":");
    push_str(&mut cred, api_token);
    proof {
        reveal_strlit(":");
        reveal_strlit("Basic ");
        crate::text::lemma_encode_utf8_concat(email@ + ":"@, api_token@);
        crate::text::lemma_encode_utf8_concat(email@, ":"@);
        assert(vstd::utf8::encode_utf8(":"@).len() == 1) by {
            assert(":"@ =~= seq![':']);
            assert(vstd::utf8::is_ascii_chars(":"@));
            vstd::utf8::is_ascii_chars_encode_utf8(":"@);
        }
    }
    let bytes = cred.as_str().as_bytes();
    let encoded = encode_base64(bytes);
    proof {
        lemma_base64_alphabet(bytes@);
    }
    let r = concat("Basic ", encoded.as_str());
    assert forall|i: int| 0 <= i < r@.len() implies ' ' <= #[trigger] r@[i] && r@[i] <= '~' by {
        if i >= 6 {
            assert(r@[i] == encoded@[i - 6]);
            assert(is_base64_char(encoded@[i - 6]));
        }
    }
    r
}

/// The `Authorization` header value for Basic authentication with `email`
/// and `api_token`: the bytes of `Basic ` and the base64 of
/// `email:api_token`. The text is always a valid header value, so this never
/// fails.
pub fn basic_auth_header(email: &str, api_token: &str) -> (r: Result<HeaderValue, AppError>)
    requires
        vstd::utf8::encode_utf8(email@).len() + vstd::utf8::encode_utf8(api_token@).len()
            < usize::MAX / 4,
    ensures
        r matches Ok(v) && header_bytes(v) == vstd::utf8::encode_utf8(basic_auth_text(email@, api_token@)),
{
    let text = basic_auth_value(email, api_token);
    proof {
        assert(vstd::utf8::is_ascii_chars(text@));
        vstd::utf8::is_ascii_chars_encode_utf8(text@);
        assert forall|i: int| 0 <= i < vstd::utf8::encode_utf8(text@).len() implies is_header_byte(
            #[trigger] vstd::utf8::encode_utf8(text@)[i],
        ) by {
            assert(' ' <= text@[i] && text@[i] <= '~');
        }
    }
    match header_value(text.as_str()) {
        Some(v) => Ok(v),
        None => Err(
            AppError::new(
                ErrorCode::ConfigInvalid,
                owned("Failed to build authorization header: failed to parse header value"),
            ),
        ),
    }
}

/// The placeholder shown instead of an API token: never the token itself.
pub fn redacted_token(_api_token: &str) -> (r: String)
    ensures
        r@ == "[redacted]"@,
{
    owned("[redacted]")
}

} // verus!

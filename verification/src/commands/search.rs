//! `search`: a text query turned into conservative CQL, or raw CQL.
use vstd::prelude::*;
use crate::commands::CommandOutput;
use crate::error::{AppError, ErrorCode};
use crate::json::{Json, JsonValue, ObjectBuilder};
use crate::text::{chars_of, concat, owned, push_str};

verus! {

broadcast use vstd::string::group_string_axioms;

/// The stable name of the command.
pub const COMMAND: &'static str = "search";

/// The search flags: exactly one of a text query or raw CQL.
#[derive(Debug)]
pub struct SearchArgs {
    pub query: Option<String>,
    pub cql: Option<String>,
}

/// One character of a CQL string literal: backslash and quote are escaped
/// with a backslash.
pub open spec fn escape_cql_char(c: char) -> Seq<char> {
    if c == '\\' {
        seq!['\\', '\\']
    } else if c == '"' {
        seq!['\\', '"']
    } else {
        seq![c]
    }
}

/// `value` escaped for use inside a double-quoted CQL string.
pub open spec fn escape_cql(value: Seq<char>) -> Seq<char>
    decreases value.len(),
{
    if value.len() == 0 {
        value
    } else {
        escape_cql_char(value[0]) + escape_cql(value.drop_first())
    }
}

/// Reading a CQL string body: a backslash takes the next character literally.
pub open spec fn unescape_cql(text: Seq<char>) -> Seq<char>
    decreases text.len(),
{
    if text.len() == 0 {
        text
    } else if text[0] == '\\' && text.len() >= 2 {
        seq![text[1]] + unescape_cql(text.skip(2))
    } else {
        seq![text[0]] + unescape_cql(text.drop_first())
    }
}

/// Escaping loses nothing: reading the escaped text back gives the query.
pub proof fn lemma_escape_cql_round_trip(value: Seq<char>)
    ensures
        unescape_cql(escape_cql(value)) == value,
    decreases value.len(),
{
    if value.len() > 0 {
        let c = value[0];
        let rest = escape_cql(value.drop_first());
        lemma_escape_cql_round_trip(value.drop_first());
        let t = escape_cql_char(c) + rest;
        if c == '\\' || c == '"' {
            assert(t[0] == '\\' && t[1] == c);
            assert(t.skip(2) =~= rest);
        } else {
            assert(t[0] == c);
            assert(t.drop_first() =~= rest);
        }
        assert(seq![c] + value.drop_first() =~= value);
    }
}

/// Every quote of the escaped text is escaped, so the text cannot end a
/// double-quoted CQL string early: a quote is always preceded by a backslash
/// that is not itself escaped.
pub open spec fn quotes_escaped(text: Seq<char>) -> bool
    decreases text.len(),
{
    if text.len() == 0 {
        true
    } else if text[0] == '\\' {
        text.len() >= 2 && quotes_escaped(text.skip(2))
    } else {
        text[0] != '"' && quotes_escaped(text.drop_first())
    }
}

/// An escaped query never closes the surrounding CQL string.
pub proof fn lemma_escape_cql_quotes_escaped(value: Seq<char>)
    ensures
        quotes_escaped(escape_cql(value)),
    decreases value.len(),
{
    if value.len() > 0 {
        let c = value[0];
        let rest = escape_cql(value.drop_first());
        lemma_escape_cql_quotes_escaped(value.drop_first());
        let t = escape_cql_char(c) + rest;
        if c == '\\' || c == '"' {
            assert(t.skip(2) =~= rest);
        } else {
            assert(t.drop_first() =~= rest);
        }
    }
}

/// Escapes backslashes and double quotes for a CQL string literal.
pub fn escape_cql_text(value: &str) -> (r: String)
    ensures
        r@ == escape_cql(value@),
{
    let cs = chars_of(value);
    let mut out = String::new();
    let mut i: usize = 0;
    assert(value@.skip(0) == value@);
    while i < cs.len()
        invariant
            i <= cs@.len(),
            cs@ == value@,
            escape_cql(value@) == out@ + escape_cql(value@.skip(i as int)),
        decreases cs.len() - i,
    {
        let c = cs[i];
        assert(value@.skip(i as int)[0] == c);
        assert(value@.skip(i as int).drop_first() == value@.skip(i + 1));
        if c == '\\' {
            out.push('\\');
            out.push('\\');
        } else if c == '"' {
            out.push('\\');
            out.push('"');
        } else {
            out.push(c);
        }
        i = i + 1;
    }
    out
}

pub open spec fn exactly_one_message() -> Seq<char> {
    "Provide exactly one of --query or --cql."@
}

impl SearchArgs {
    /// The CQL to run: `text ~ "query"` with the query escaped, or the raw
    /// CQL; any other combination is `confluence_validation_failed`.
    pub fn cql(self) -> (r: Result<String, AppError>)
        ensures
            match (self.query, self.cql) {
                (Some(q), None) => r matches Ok(c) && c@ == "text ~ \""@ + escape_cql(q@) + "\""@,
                (None, Some(c)) => r matches Ok(x) && x@ == c@,
                _ => r matches Err(e) && e.code == ErrorCode::ConfluenceValidationFailed
                    && e.message@ == exactly_one_message(),
            },
    {
        match (self.query, self.cql) {
            (Some(query), None) => {
                let mut c = concat("text ~ \"", escape_cql_text(query.as_str()).as_str());
                push_str(&mut c, "\"");
                Ok(c)
            },
            (None, Some(cql)) => Ok(cql),
            _ => Err(
                AppError::new(
                    ErrorCode::ConfluenceValidationFailed,
                    owned("Provide exactly one of --query or --cql."),
                ),
            ),
        }
    }
}

/// The output of a search: the CQL that ran and Confluence's result.
pub fn search_output(cql: String, result: Json) -> (o: CommandOutput)
    ensures
        o.command@ == "search"@,
        !o.dry_run,
        o.text is None,
        o.data@ == JsonValue::Object(
            seq![("cql"@, JsonValue::Str(cql@)), ("result"@, result@)],
        ),
{
    let ghost cv = cql@;
    let ghost rv = result@;
    let mut b = ObjectBuilder::new();
    b.add("cql", Json::Str(cql));
    b.add("result", result);
    let data = b.build();
    assert(data@->Object_0 =~= seq![("cql"@, JsonValue::Str(cv)), ("result"@, rv)]);
    CommandOutput::new(COMMAND, false, data)
}

} // verus!

//! Dry-run summaries of page writes: what would be sent, without the body.
use vstd::prelude::*;
use crate::content::{texts_view, ConvertedContent};
use crate::json::{number_value, optional_text, Json, JsonValue, ObjectBuilder};

verus! {

broadcast use vstd::string::group_string_axioms;

/// The page a write addresses.
#[derive(Debug)]
pub enum WriteTarget {
    Create { space_key: String, space_id: String, parent_id: Option<String> },
    Update { page_id: String, current_version: u64, next_version: u64 },
}

pub open spec fn option_view(o: Option<String>) -> Option<Seq<char>> {
    match o {
        Some(s) => Some(s@),
        None => None,
    }
}

/// The `target` member of a page create: tagged by `kind`, fields in snake_case.
pub open spec fn create_target_value(
    space_key: Seq<char>,
    space_id: Seq<char>,
    parent_id: Option<Seq<char>>,
) -> JsonValue {
    JsonValue::Object(
        seq![
            ("kind"@, JsonValue::Str("create"@)),
            ("space_key"@, JsonValue::Str(space_key)),
            ("space_id"@, JsonValue::Str(space_id)),
            ("parent_id"@, optional_text(parent_id)),
        ],
    )
}

/// The `target` member of a page update.
pub open spec fn update_target_value(page_id: Seq<char>, current_version: nat, next_version: nat) -> JsonValue {
    JsonValue::Object(
        seq![
            ("kind"@, JsonValue::Str("update"@)),
            ("page_id"@, JsonValue::Str(page_id)),
            ("current_version"@, number_value(current_version)),
            ("next_version"@, number_value(next_version)),
        ],
    )
}

/// The `target` member.
pub open spec fn target_value(t: WriteTarget) -> JsonValue {
    match t {
        WriteTarget::Create { space_key, space_id, parent_id } => create_target_value(
            space_key@,
            space_id@,
            option_view(parent_id),
        ),
        WriteTarget::Update { page_id, current_version, next_version } => update_target_value(
            page_id@,
            current_version as nat,
            next_version as nat,
        ),
    }
}

/// The dry-run document. It depends on the body only through its summary:
/// byte counts and headings.
pub open spec fn dry_run_value(
    method: Seq<char>,
    endpoint: Seq<char>,
    target: JsonValue,
    title: Seq<char>,
    markdown_bytes: nat,
    storage_html_bytes: nat,
    headings: Seq<Seq<char>>,
) -> JsonValue {
    JsonValue::Object(
        seq![
            ("method"@, JsonValue::Str(method)),
            ("endpoint"@, JsonValue::Str(endpoint)),
            ("target"@, target),
            ("title"@, JsonValue::Str(title)),
            (
                "body"@,
                JsonValue::Object(
                    seq![
                        ("format"@, JsonValue::Str("storage"@)),
                        (
                            "summary"@,
                            JsonValue::Object(
                                seq![
                                    ("markdown_bytes"@, number_value(markdown_bytes)),
                                    ("storage_html_bytes"@, number_value(storage_html_bytes)),
                                    (
                                        "headings"@,
                                        JsonValue::Array(
                                            Seq::new(
                                                headings.len(),
                                                |i: int| JsonValue::Str(headings[i]),
                                            ),
                                        ),
                                    ),
                                ],
                            ),
                        ),
                    ],
                ),
            ),
            (
                "payload_preview"@,
                JsonValue::Object(
                    seq![
                        ("status"@, JsonValue::Str("current"@)),
                        ("title"@, JsonValue::Str(title)),
                        (
                            "body"@,
                            JsonValue::Object(
                                seq![
                                    ("representation"@, JsonValue::Str("storage"@)),
                                    ("value"@, JsonValue::Str("[omitted]"@)),
                                ],
                            ),
                        ),
                    ],
                ),
            ),
        ],
    )
}

/// The dry run of a write of `content` for `title` to `target`.
pub open spec fn dry_run_of(
    method: Seq<char>,
    endpoint: Seq<char>,
    target: WriteTarget,
    title: Seq<char>,
    content: ConvertedContent,
) -> JsonValue {
    dry_run_value(
        method,
        endpoint,
        target_value(target),
        title,
        content.markdown_bytes as nat,
        content.storage_html_bytes as nat,
        texts_view(content.headings@),
    )
}

fn target_json(target: WriteTarget) -> (j: Json)
    ensures
        j@ == target_value(target),
{
    let ghost t = target;
    match target {
        WriteTarget::Create { space_key, space_id, parent_id } => {
            let mut b = ObjectBuilder::new();
            b.add("kind", Json::text("create"));
            b.add("space_key", Json::Str(space_key));
            b.add("space_id", Json::Str(space_id));
            b.add("parent_id", Json::optional_text(&parent_id));
            let j = b.build();
            assert(j@->Object_0 =~= target_value(t)->Object_0);
            j
        },
        WriteTarget::Update { page_id, current_version, next_version } => {
            let mut b = ObjectBuilder::new();
            b.add("kind", Json::text("update"));
            b.add("page_id", Json::Str(page_id));
            b.add("current_version", Json::number(current_version));
            b.add("next_version", Json::number(next_version));
            let j = b.build();
            assert(j@->Object_0 =~= target_value(t)->Object_0);
            j
        },
    }
}

/// The dry-run summary of a page write. The storage body itself is never
/// included: the preview shows `[omitted]` in its place.
pub fn create_dry_run(
    method: &str,
    endpoint: String,
    target: WriteTarget,
    title: &str,
    content: &ConvertedContent,
) -> (j: Json)
    ensures
        j@ == dry_run_of(method@, endpoint@, target, title@, *content),
{
    let ghost t = target;
    let mut summary = ObjectBuilder::new();
    summary.add("markdown_bytes", Json::number(content.markdown_bytes as u64));
    summary.add("storage_html_bytes", Json::number(content.storage_html_bytes as u64));
    let headings = Json::text_array(&content.headings);
    summary.add("headings", headings);
    let mut body = ObjectBuilder::new();
    body.add("format", Json::text("storage"));
    body.add("summary", summary.build());
    let mut preview_body = ObjectBuilder::new();
    preview_body.add("representation", Json::text("storage"));
    preview_body.add("value", Json::text("[omitted]"));
    let mut preview = ObjectBuilder::new();
    preview.add("status", Json::text("current"));
    preview.add("title", Json::text(title));
    preview.add("body", preview_body.build());
    let mut b = ObjectBuilder::new();
    b.add("method", Json::text(method));
    b.add("endpoint", Json::Str(endpoint));
    b.add("target", target_json(target));
    b.add("title", Json::text(title));
    b.add("body", body.build());
    b.add("payload_preview", preview.build());
    let j = b.build();
    proof {
        let expected = dry_run_of(method@, endpoint@, t, title@, *content);
        let hs = texts_view(content.headings@);
        assert(Seq::new(content.headings@.len(), |i: int| JsonValue::Str(content.headings@[i]@))
            =~= Seq::new(hs.len(), |i: int| JsonValue::Str(hs[i])));
        assert(j@->Object_0[4].1->Object_0[1].1->Object_0 =~= expected->Object_0[4].1->Object_0[
            1
        ].1->Object_0);
        assert(j@->Object_0[4].1->Object_0 =~= expected->Object_0[4].1->Object_0);
        assert(j@->Object_0[5].1->Object_0[2].1->Object_0 =~= expected->Object_0[5].1->Object_0[
            2
        ].1->Object_0);
        assert(j@->Object_0[5].1->Object_0 =~= expected->Object_0[5].1->Object_0);
        assert(j@->Object_0 =~= expected->Object_0);
    }
    j
}

/// A dry run never depends on the converted body itself: two conversions
/// with the same summary (byte counts and headings) give the same dry run,
/// whatever their storage HTML.
pub proof fn lemma_dry_run_ignores_body(
    method: Seq<char>,
    endpoint: Seq<char>,
    target: WriteTarget,
    title: Seq<char>,
    a: ConvertedContent,
    b: ConvertedContent,
)
    requires
        a.markdown_bytes == b.markdown_bytes,
        a.storage_html_bytes == b.storage_html_bytes,
        texts_view(a.headings@) == texts_view(b.headings@),
    ensures
        dry_run_of(method, endpoint, target, title, a) == dry_run_of(
            method,
            endpoint,
            target,
            title,
            b,
        ),
{
}

} // verus!

//! `page get`: one page with its storage body.
use vstd::prelude::*;
use crate::client::{Page, PageVersion};
use crate::commands::CommandOutput;
use crate::dry_run::option_view;
use crate::json::{number_value, optional_text, Json, JsonValue, ObjectBuilder};

verus! {

broadcast use vstd::string::group_string_axioms;

/// The stable name of the command.
pub const COMMAND: &'static str = "page.get";

/// The flags of `page get`.
#[derive(Debug)]
pub struct PageGetArgs {
    pub page_id: String,
}

pub open spec fn optional_json(j: Option<Json>) -> JsonValue {
    match j {
        Some(v) => v@,
        None => JsonValue::Null,
    }
}

/// A page as JSON: camelCase members, `_links` for the links, `null` for
/// what is absent.
pub open spec fn page_value(page: Page) -> JsonValue {
    JsonValue::Object(
        seq![
            ("id"@, JsonValue::Str(page.id@)),
            ("status"@, JsonValue::Str(page.status@)),
            ("title"@, JsonValue::Str(page.title@)),
            ("spaceId"@, optional_text(option_view(page.space_id))),
            ("parentId"@, optional_text(option_view(page.parent_id))),
            (
                "version"@,
                match page.version {
                    Some(v) => JsonValue::Object(seq![("number"@, number_value(v.number as nat))]),
                    None => JsonValue::Null,
                },
            ),
            ("body"@, optional_json(page.body)),
            ("_links"@, optional_json(page.links)),
        ],
    )
}

fn optional_member(j: Option<Json>) -> (r: Json)
    ensures
        r@ == optional_json(j),
{
    match j {
        Some(v) => v,
        None => Json::Null,
    }
}

/// The JSON document of a page.
pub fn page_json(page: Page) -> (j: Json)
    ensures
        j@ == page_value(page),
{
    let ghost p = page;
    let version = match page.version {
        Some(v) => {
            let mut b = ObjectBuilder::new();
            b.add("number", Json::number(v.number));
            let vj = b.build();
            assert(vj@->Object_0 =~= seq![("number"@, number_value(v.number as nat))]);
            vj
        },
        None => Json::Null,
    };
    let mut b = ObjectBuilder::new();
    b.add("id", Json::Str(page.id));
    b.add("status", Json::Str(page.status));
    b.add("title", Json::Str(page.title));
    b.add("spaceId", Json::optional_text(&page.space_id));
    b.add("parentId", Json::optional_text(&page.parent_id));
    b.add("version", version);
    b.add("body", optional_member(page.body));
    b.add("_links", optional_member(page.links));
    let j = b.build();
    assert(j@->Object_0 =~= page_value(p)->Object_0);
    j
}

/// The output of `page get`.
pub fn page_get_output(page: Page) -> (o: CommandOutput)
    ensures
        o.command@ == "page.get"@,
        !o.dry_run,
        o.text is None,
        o.data@ == page_value(page),
{
    CommandOutput::new(COMMAND, false, page_json(page))
}

} // verus!

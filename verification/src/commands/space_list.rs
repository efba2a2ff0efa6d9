//! `space list`: the spaces the credentials can see.
use vstd::prelude::*;
use crate::client::Space;
use crate::commands::CommandOutput;
use crate::json::{Json, JsonValue, ObjectBuilder, lemma_array_value, items_value};

verus! {

broadcast use vstd::string::group_string_axioms;

/// The stable name of the command.
pub const COMMAND: &'static str = "space.list";

/// `space list` takes no flags.
#[derive(Debug)]
pub struct SpaceListArgs {}

/// A space as JSON.
pub open spec fn space_value(s: Space) -> JsonValue {
    JsonValue::Object(
        seq![("id"@, JsonValue::Str(s.id@)), ("key"@, JsonValue::Str(s.key@)), ("name"@, JsonValue::Str(s.name@))],
    )
}

/// `{"spaces": [...]}`.
pub open spec fn spaces_value(spaces: Seq<Space>) -> JsonValue {
    JsonValue::Object(
        seq![("spaces"@, JsonValue::Array(Seq::new(spaces.len(), |i: int| space_value(spaces[i]))))],
    )
}

/// The output of `space list`.
pub fn space_list_output(spaces: &Vec<Space>) -> (o: CommandOutput)
    ensures
        o.command@ == "space.list"@,
        !o.dry_run,
        o.text is None,
        o.data@ == spaces_value(spaces@),
{
    let mut items: Vec<Json> = Vec::new();
    let mut i: usize = 0;
    while i < spaces.len()
        invariant
            i <= spaces@.len(),
            items@.len() == i,
            forall|k: int| 0 <= k < i ==> (#[trigger] items@[k])@ == space_value(spaces@[k]),
        decreases spaces.len() - i,
    {
        let s = &spaces[i];
        let mut b = ObjectBuilder::new();
        b.add("id", Json::Str(s.id.clone()));
        b.add("key", Json::Str(s.key.clone()));
        b.add("name", Json::Str(s.name.clone()));
        let sj = b.build();
        assert(sj@->Object_0 =~= space_value(*s)->Object_0);
        items.push(sj);
        i = i + 1;
    }
    proof {
        lemma_array_value(items);
        assert(items_value(items@) =~= Seq::new(spaces@.len(), |i: int| space_value(spaces@[i])));
    }
    let mut b = ObjectBuilder::new();
    b.add("spaces", Json::Array(items));
    let data = b.build();
    assert(data@->Object_0 =~= spaces_value(spaces@)->Object_0);
    CommandOutput::new(COMMAND, false, data)
}


/// Every space is listed, once and in order: the `spaces` array has one
/// entry per input space, and entry `i` carries the id, key and name of the
/// `i`th space.
pub proof fn lemma_every_space_listed(spaces: Seq<Space>)
    ensures
        spaces_value(spaces) is Object,
        spaces_value(spaces)->Object_0.len() == 1,
        spaces_value(spaces)->Object_0[0].0 == "spaces"@,
        spaces_value(spaces)->Object_0[0].1 is Array,
        spaces_value(spaces)->Object_0[0].1->Array_0.len() == spaces.len(),
        forall|i: int|
            0 <= i < spaces.len() ==> #[trigger] spaces_value(spaces)->Object_0[0].1->Array_0[i]
                == JsonValue::Object(
                seq![
                    ("id"@, JsonValue::Str(spaces[i].id@)),
                    ("key"@, JsonValue::Str(spaces[i].key@)),
                    ("name"@, JsonValue::Str(spaces[i].name@)),
                ],
            ),
{
}

} // verus!

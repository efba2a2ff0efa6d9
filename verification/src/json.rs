//! A JSON document model: the values the library builds for its stable output
//! envelopes, dry-run summaries and error details.
use vstd::prelude::*;
use crate::text::{decimal, decimal_string, owned};

verus! {

/// A JSON value. Numbers keep the decimal text that a JSON writer prints;
/// object members keep their order.
#[derive(Debug)]
pub enum Json {
    Null,
    Bool(bool),
    Number(String),
    Str(String),
    Array(Vec<Json>),
    Object(Vec<(String, Json)>),
}

/// The mathematical value of a [`Json`] document.
pub enum JsonValue {
    Null,
    Bool(bool),
    Number(Seq<char>),
    Str(Seq<char>),
    Array(Seq<JsonValue>),
    Object(Seq<(Seq<char>, JsonValue)>),
}

impl Json {
    pub open spec fn value(self) -> JsonValue
        decreases self,
    {
        match self {
            Json::Null => JsonValue::Null,
            Json::Bool(b) => JsonValue::Bool(b),
            Json::Number(n) => JsonValue::Number(n@),
            Json::Str(s) => JsonValue::Str(s@),
            Json::Array(items) => JsonValue::Array(
                Seq::new(
                    items@.len(),
                    |i: int|
                        if 0 <= i < items@.len() {
                            items@[i].value()
                        } else {
                            JsonValue::Null
                        },
                ),
            ),
            Json::Object(members) => JsonValue::Object(
                Seq::new(
                    members@.len(),
                    |i: int|
                        if 0 <= i < members@.len() {
                            (members@[i].0@, members@[i].1.value())
                        } else {
                            (Seq::empty(), JsonValue::Null)
                        },
                ),
            ),
        }
    }
}

impl View for Json {
    type V = JsonValue;

    open spec fn view(&self) -> JsonValue {
        self.value()
    }
}


/// The values of a sequence of JSON members.
pub open spec fn members_value(ms: Seq<(String, Json)>) -> Seq<(Seq<char>, JsonValue)> {
    Seq::new(ms.len(), |i: int| (ms[i].0@, ms[i].1@))
}

/// The values of a sequence of JSON items.
pub open spec fn items_value(items: Seq<Json>) -> Seq<JsonValue> {
    Seq::new(items.len(), |i: int| items[i]@)
}

/// The JSON number holding the decimal value `n`.
pub open spec fn number_value(n: nat) -> JsonValue {
    JsonValue::Number(decimal(n))
}

/// An optional text: `null` or a string.
pub open spec fn optional_text(t: Option<Seq<char>>) -> JsonValue {
    match t {
        Some(s) => JsonValue::Str(s),
        None => JsonValue::Null,
    }
}

pub proof fn lemma_object_value(ms: Vec<(String, Json)>)
    ensures
        Json::Object(ms)@ == JsonValue::Object(members_value(ms@)),
{
    assert(Json::Object(ms)@->Object_0 =~= members_value(ms@));
}

pub proof fn lemma_array_value(items: Vec<Json>)
    ensures
        Json::Array(items)@ == JsonValue::Array(items_value(items@)),
{
    assert(Json::Array(items)@->Array_0 =~= items_value(items@));
}

/// Builds a JSON object member by member.
pub struct ObjectBuilder {
    pub members: Vec<(String, Json)>,
}

impl ObjectBuilder {
    pub open spec fn value(&self) -> Seq<(Seq<char>, JsonValue)> {
        members_value(self.members@)
    }

    pub fn new() -> (b: ObjectBuilder)
        ensures
            b.value() == Seq::<(Seq<char>, JsonValue)>::empty(),
    {
        let b = ObjectBuilder { members: Vec::new() };
        assert(b.value() =~= Seq::<(Seq<char>, JsonValue)>::empty());
        b
    }

    /// Appends the member `key: value`.
    pub fn add(&mut self, key: &str, value: Json)
        ensures
            final(self).value() == old(self).value().push((key@, value@)),
    {
        let k = owned(key);
        self.members.push((k, value));
        assert(self.value() =~= old(self).value().push((key@, value@)));
    }

    /// The finished object.
    pub fn build(self) -> (j: Json)
        ensures
            j@ == JsonValue::Object(self.value()),
    {
        proof {
            lemma_object_value(self.members);
        }
        Json::Object(self.members)
    }
}

impl Json {
    /// A JSON string holding the characters of `s`.
    pub fn text(s: &str) -> (j: Json)
        ensures
            j@ == JsonValue::Str(s@),
    {
        Json::Str(owned(s))
    }

    /// A JSON number holding `n`.
    pub fn number(n: u64) -> (j: Json)
        ensures
            j@ == number_value(n as nat),
    {
        Json::Number(decimal_string(n))
    }

    /// `null` for `None`, a string otherwise.
    pub fn optional_text(t: &Option<String>) -> (j: Json)
        ensures
            j@ == optional_text(
                match t {
                    Some(s) => Some(s@),
                    None => None,
                },
            ),
    {
        match t {
            Some(s) => Json::Str(s.clone()),
            None => Json::Null,
        }
    }

    /// A JSON array holding copies of the strings `items`.
    pub fn text_array(items: &Vec<String>) -> (j: Json)
        ensures
            j@ == JsonValue::Array(Seq::new(items@.len(), |i: int| JsonValue::Str(items@[i]@))),
    {
        let mut out: Vec<Json> = Vec::new();
        let mut i: usize = 0;
        while i < items.len()
            invariant
                i <= items@.len(),
                out@.len() == i,
                forall|k: int| 0 <= k < i ==> (#[trigger] out@[k])@ == JsonValue::Str(items@[k]@),
            decreases items.len() - i,
        {
            out.push(Json::Str(items[i].clone()));
            i = i + 1;
        }
        proof {
            lemma_array_value(out);
            assert(items_value(out@) =~= Seq::new(items@.len(), |i: int| JsonValue::Str(items@[i]@)));
        }
        Json::Array(out)
    }

    /// A copy of this document with the same value.
    #[verifier::loop_isolation(false)]
    pub fn deep_copy(&self) -> (r: Json)
        ensures
            r@ == self@,
        decreases self,
    {
        match self {
            Json::Null => Json::Null,
            Json::Bool(b) => Json::Bool(*b),
            Json::Number(n) => Json::Number(n.clone()),
            Json::Str(s) => Json::Str(s.clone()),
            Json::Array(items) => {
                let mut out: Vec<Json> = Vec::new();
                let mut i: usize = 0;
                while i < items.len()
                    invariant
                        i <= items@.len(),
                        out@.len() == i,
                        forall|k: int| 0 <= k < i ==> (#[trigger] out@[k])@ == items@[k]@,
                    decreases items.len() - i,
                {
                    assert(decreases_to!(*self => *items));
                    assert(decreases_to!(*items => items@));
                    assert(decreases_to!(items@ => items@[i as int]));
                    let item = items[i].deep_copy();
                    out.push(item);
                    i = i + 1;
                }
                let r = Json::Array(out);
                assert(r@->Array_0 =~= self@->Array_0);
                r
            },
            Json::Object(members) => {
                let mut out: Vec<(String, Json)> = Vec::new();
                let mut i: usize = 0;
                while i < members.len()
                    invariant
                        i <= members@.len(),
                        out@.len() == i,
                        forall|k: int|
                            0 <= k < i ==> (#[trigger] out@[k]).0@ == members@[k].0@ && out@[k].1@
                                == members@[k].1@,
                    decreases members.len() - i,
                {
                    assert(decreases_to!(*self => *members));
                    assert(decreases_to!(*members => members@));
                    assert(decreases_to!(members@ => members@[i as int]));
                    assert(decreases_to!(members@[i as int] => members@[i as int].1));
                    let key = members[i].0.clone();
                    let item = members[i].1.deep_copy();
                    out.push((key, item));
                    i = i + 1;
                }
                let r = Json::Object(out);
                assert(r@->Object_0 =~= self@->Object_0);
                r
            },
        }
    }
}

} // verus!

//! JSON values.

use vstd::prelude::*;

use crate::text::same_text;

verus! {

/// A JSON value.
#[derive(Debug, PartialEq, Eq)]
pub enum Json {
    Null,
    Bool(bool),
    /// A number, as it is written.
    Number(String),
    Text(String),
    Array(Vec<Json>),
    /// The members of an object, in the order in which they are kept.
    Object(Vec<(String, Json)>),
}

/// What a JSON value holds.
pub enum JsonData {
    Null,
    Bool(bool),
    Number(Seq<char>),
    Text(Seq<char>),
    Array(Seq<JsonData>),
    Object(Seq<(Seq<char>, JsonData)>),
}

/// What a JSON value holds.
pub open spec fn json_data(json: Json) -> JsonData
    decreases json,
{
    match json {
        Json::Null => JsonData::Null,
        Json::Bool(b) => JsonData::Bool(b),
        Json::Number(n) => JsonData::Number(n@),
        Json::Text(s) => JsonData::Text(s@),
        Json::Array(items) => JsonData::Array(
            Seq::new(
                items@.len(),
                |i: int|
                    if 0 <= i < items@.len() {
                        json_data(items@[i])
                    } else {
                        JsonData::Null
                    },
            ),
        ),
        Json::Object(members) => JsonData::Object(
            Seq::new(
                members@.len(),
                |i: int|
                    if 0 <= i < members@.len() {
                        (members@[i].0@, json_data(members@[i].1))
                    } else {
                        (Seq::empty(), JsonData::Null)
                    },
            ),
        ),
    }
}

impl View for Json {
    type V = JsonData;

    open spec fn view(&self) -> JsonData {
        json_data(*self)
    }
}

// ── Reading documents ────────────────────────────────────────────

/// `serde_json::Value`: a JSON value of the outside parser.
#[verifier::external_type_specification]
#[verifier::external_body]
pub struct ExValue(serde_json::Value);

/// What a value of the outside parser holds.
pub uninterp spec fn json_in(value: serde_json::Value) -> JsonData;

/// What the document `text` holds, where it is a JSON document.
pub uninterp spec fn json_document(text: Seq<char>) -> Option<JsonData>;

/// `serde_json::from_str` for a `serde_json::Value`: parses a JSON document. What it gives, and
/// whether it gives anything, depends on the text alone. Which texts are documents, and what they
/// hold, is not stated here.
#[verifier::external_body]
fn value_from_str(text: &str) -> (r: Option<serde_json::Value>)
    ensures
        match r {
            Some(value) => json_document(text@) == Some(json_in(value)),
            None => json_document(text@) is None,
        },
{
    match serde_json::from_str(text) {
        Ok(value) => Some(value),
        Err(_) => None,
    }
}

/// The outermost layer of a JSON value, with values of the outside parser inside.
enum JsonLayer {
    Null,
    Bool(bool),
    Number(String),
    Text(String),
    Array(Vec<serde_json::Value>),
    Object(Vec<(String, serde_json::Value)>),
}

/// What a layer holds, with what is inside of it.
spec fn layer_data(layer: JsonLayer) -> JsonData {
    match layer {
        JsonLayer::Null => JsonData::Null,
        JsonLayer::Bool(b) => JsonData::Bool(b),
        JsonLayer::Number(n) => JsonData::Number(n@),
        JsonLayer::Text(s) => JsonData::Text(s@),
        JsonLayer::Array(items) => JsonData::Array(
            Seq::new(items@.len(), |i: int| json_in(items@[i])),
        ),
        JsonLayer::Object(members) => JsonData::Object(
            Seq::new(members@.len(), |i: int| (members@[i].0@, json_in(members@[i].1))),
        ),
    }
}

/// The variants of `serde_json::Value`, one for one: takes a value apart into its outermost layer.
/// An object gives its members in the order of its map.
#[verifier::external_body]
fn layer_of(value: serde_json::Value) -> (r: JsonLayer)
    ensures
        layer_data(r) == json_in(value),
{
    match value {
        serde_json::Value::Null => JsonLayer::Null,
        serde_json::Value::Bool(b) => JsonLayer::Bool(b),
        serde_json::Value::Number(n) => JsonLayer::Number(n.to_string()),
        serde_json::Value::String(s) => JsonLayer::Text(s),
        serde_json::Value::Array(items) => JsonLayer::Array(items),
        serde_json::Value::Object(members) => JsonLayer::Object(members.into_iter().collect()),
    }
}

proof fn lemma_items_are_smaller(data: JsonData, i: int)
    requires
        data is Array,
        0 <= i < data->Array_0.len(),
    ensures
        decreases_to!(data => data->Array_0[i]),
{
    assert(decreases_to!(data => data->Array_0));
    assert(decreases_to!(data->Array_0 => data->Array_0[i]));
}

proof fn lemma_members_are_smaller(data: JsonData, i: int)
    requires
        data is Object,
        0 <= i < data->Object_0.len(),
    ensures
        decreases_to!(data => data->Object_0[i].1),
{
    assert(decreases_to!(data => data->Object_0));
    assert(decreases_to!(data->Object_0 => data->Object_0[i]));
    assert(decreases_to!(data->Object_0[i] => data->Object_0[i].1));
}

/// The JSON value that a value of the outside parser holds.
pub fn json_from(value: serde_json::Value) -> (r: Json)
    ensures
        r@ == json_in(value),
    decreases json_in(value),
{
    let ghost data = json_in(value);
    match layer_of(value) {
        JsonLayer::Null => Json::Null,
        JsonLayer::Bool(b) => Json::Bool(b),
        JsonLayer::Number(n) => Json::Number(n),
        JsonLayer::Text(s) => Json::Text(s),
        JsonLayer::Array(items) => {
            let mut inner: Vec<Json> = Vec::new();
            let ghost held = data->Array_0;
            for item in it: items
                invariant
                    inner.len() == it.index(),
                    json_in(value) == JsonData::Array(held),
                    held.len() == it.seq().len(),
                    forall|i: int| 0 <= i < held.len() ==> #[trigger] held[i] == json_in(
                        it.seq()[i],
                    ),
                    forall|i: int| 0 <= i < inner.len() ==> (#[trigger] inner@[i])@ == held[i],
            {
                assert(held[it.index()] == json_in(item));
                proof {
                    lemma_items_are_smaller(json_in(value), it.index());
                }
                inner.push(json_from(item));
            }
            let r = Json::Array(inner);
            assert(r@->Array_0 =~= held);
            r
        },
        JsonLayer::Object(members) => {
            let mut inner: Vec<(String, Json)> = Vec::new();
            let ghost held = data->Object_0;
            for member in it: members
                invariant
                    inner.len() == it.index(),
                    json_in(value) == JsonData::Object(held),
                    held.len() == it.seq().len(),
                    forall|i: int|
                        0 <= i < held.len() ==> #[trigger] held[i] == (
                            it.seq()[i].0@,
                            json_in(it.seq()[i].1),
                        ),
                    forall|i: int|
                        0 <= i < inner.len() ==> (#[trigger] inner@[i]).0@ == held[i].0
                            && inner@[i].1@ == held[i].1,
            {
                assert(held[it.index()] == (member.0@, json_in(member.1)));
                proof {
                    lemma_members_are_smaller(json_in(value), it.index());
                }
                inner.push((member.0, json_from(member.1)));
            }
            let r = Json::Object(inner);
            assert(r@->Object_0 =~= held);
            r
        },
    }
}

/// Parses a JSON document.
pub fn parse_json(text: &str) -> (r: Option<Json>)
    ensures
        match r {
            Some(json) => json_document(text@) == Some(json@),
            None => json_document(text@) is None,
        },
{
    match value_from_str(text) {
        Some(value) => Some(json_from(value)),
        None => None,
    }
}

// ── Access ───────────────────────────────────────────────────────

/// The value of the first member of that name among `members`.
pub open spec fn member_among(members: Seq<(Seq<char>, JsonData)>, key: Seq<char>) -> Option<
    JsonData,
>
    decreases members.len(),
{
    if members.len() == 0 {
        None
    } else if members[0].0 == key {
        Some(members[0].1)
    } else {
        member_among(members.drop_first(), key)
    }
}

/// The member of that name, where the value is an object that has one.
pub open spec fn member(data: JsonData, key: Seq<char>) -> Option<JsonData> {
    match data {
        JsonData::Object(members) => member_among(members, key),
        _ => None,
    }
}

/// The text of the member of that name. Empty where there is no such member, or it is no text.
pub open spec fn member_text(data: JsonData, key: Seq<char>) -> Seq<char> {
    match member(data, key) {
        Some(JsonData::Text(s)) => s,
        _ => Seq::empty(),
    }
}

/// The items of the member of that name. None where there is no such member, or it is no array.
pub open spec fn member_items(data: JsonData, key: Seq<char>) -> Seq<JsonData> {
    match member(data, key) {
        Some(JsonData::Array(items)) => items,
        _ => Seq::empty(),
    }
}

impl Json {
    /// The member of an object by its name.
    pub fn get(&self, key: &str) -> (r: Option<&Json>)
        ensures
            match r {
                Some(json) => member(self@, key@) == Some(json@),
                None => member(self@, key@) is None,
            },
    {
        match self {
            Json::Object(members) => {
                let ghost all = self@->Object_0;
                let mut i: usize = 0;
                assert(all.skip(0) =~= all);
                while i < members.len()
                    invariant
                        i <= members.len(),
                        self@ == JsonData::Object(all),
                        all.len() == members.len(),
                        forall|j: int|
                            0 <= j < all.len() ==> #[trigger] all[j] == (
                                members@[j].0@,
                                members@[j].1@,
                            ),
                        member_among(all, key@) == member_among(all.skip(i as int), key@),
                    decreases members.len() - i,
                {
                    assert(all.skip(i as int)[0] == all[i as int]);
                    if same_text(members[i].0.as_str(), key) {
                        return Some(&members[i].1);
                    }
                    assert(all.skip(i as int).drop_first() =~= all.skip(i + 1));
                    i += 1;
                }
                None
            },
            _ => None,
        }
    }

    /// The text of the member of an object. Empty where there is no such text.
    pub fn get_text(&self, key: &str) -> (r: String)
        ensures
            r@ == member_text(self@, key@),
    {
        match self.get(key) {
            Some(Json::Text(s)) => s.clone(),
            _ => String::new(),
        }
    }
}

// ── Laws ─────────────────────────────────────────────────────────

/// A JSON value holds what it is made of: its texts and numbers as they are written, its items and
/// members in their order.
pub proof fn values_hold_what_they_are_made_of(json: Json, i: int)
    ensures
        json is Null <==> json@ is Null,
        json matches Json::Bool(b) ==> json@ == JsonData::Bool(b),
        json matches Json::Number(n) ==> json@ == JsonData::Number(n@),
        json matches Json::Text(s) ==> json@ == JsonData::Text(s@),
        json matches Json::Array(items) ==> json@ is Array && json@->Array_0.len() == items@.len()
            && (0 <= i < items@.len() ==> json@->Array_0[i] == items@[i]@),
        json matches Json::Object(members) ==> json@ is Object && json@->Object_0.len()
            == members@.len() && (0 <= i < members@.len() ==> json@->Object_0[i] == (
            members@[i].0@,
            members@[i].1@,
        )),
{
}

proof fn lemma_first_member(members: Seq<(Seq<char>, JsonData)>, key: Seq<char>, i: int)
    requires
        0 <= i <= members.len(),
        forall|j: int| 0 <= j < i ==> (#[trigger] members[j]).0 != key,
    ensures
        i < members.len() && members[i].0 == key ==> member_among(members, key) == Some(
            members[i].1,
        ),
        i == members.len() ==> member_among(members, key) is None,
    decreases members.len(),
{
    if i > 0 {
        assert(members[0].0 != key);
        let rest = members.drop_first();
        assert forall|j: int| 0 <= j < i - 1 implies (#[trigger] rest[j]).0 != key by {
            assert(rest[j] == members[j + 1]);
        }
        lemma_first_member(rest, key, i - 1);
    }
}

/// A member is found by its name: the first that has it, in an object only.
pub proof fn members_are_found_by_name(
    members: Seq<(Seq<char>, JsonData)>,
    key: Seq<char>,
    i: int,
    data: JsonData,
)
    ensures
        0 <= i < members.len() && members[i].0 == key && (forall|j: int|
            0 <= j < i ==> (#[trigger] members[j]).0 != key) ==> member(
            JsonData::Object(members),
            key,
        ) == Some(members[i].1),
        (forall|j: int| 0 <= j < members.len() ==> (#[trigger] members[j]).0 != key) ==> member(
            JsonData::Object(members),
            key,
        ) is None,
        !(data is Object) ==> member(data, key) is None,
{
    if 0 <= i < members.len() && (forall|j: int| 0 <= j < i ==> (#[trigger] members[j]).0 != key) {
        lemma_first_member(members, key, i);
    }
    if forall|j: int| 0 <= j < members.len() ==> (#[trigger] members[j]).0 != key {
        lemma_first_member(members, key, members.len() as int);
    }
}

/// The text of a member is what its text says, and empty where the member is missing or no text;
/// its items are those of its array, and none where it is missing or no array.
pub proof fn members_give_their_texts_and_items(data: JsonData, key: Seq<char>)
    ensures
        member(data, key) matches Some(JsonData::Text(s)) ==> member_text(data, key) == s,
        !(member(data, key) matches Some(JsonData::Text(_))) ==> member_text(data, key).len() == 0,
        member(data, key) matches Some(JsonData::Array(items)) ==> member_items(data, key) == items,
        !(member(data, key) matches Some(JsonData::Array(_))) ==> member_items(data, key).len()
            == 0,
{
}

} // verus!

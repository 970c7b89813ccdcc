//! JSON documents as the update protocol and the package manifests use them.
use crate::outside::{json_from_value, json_parsed, json_value_from_str};
use crate::text::str_eq;
use vstd::prelude::*;

verus! {

/// A parsed JSON document. Of a number only its value as a `u64` is kept, where it has one.
pub enum Json {
    Null,
    Bool(bool),
    Number(Option<u64>),
    Str(String),
    Array(Vec<Json>),
    Object(Vec<(String, Json)>),
}

/// The mathematical value of a JSON document.
pub enum JsonView {
    Null,
    Bool(bool),
    Number(Option<u64>),
    Str(Seq<char>),
    Array(Seq<JsonView>),
    Object(Map<Seq<char>, JsonView>),
}

/// The mathematical value of a document.
pub open spec fn json_view(json: Json) -> JsonView
    decreases json,
{
    match json {
        Json::Null => JsonView::Null,
        Json::Bool(b) => JsonView::Bool(b),
        Json::Number(n) => JsonView::Number(n),
        Json::Str(s) => JsonView::Str(s@),
        Json::Array(items) => JsonView::Array(items_view(items@)),
        Json::Object(fields) => JsonView::Object(fields_view(fields@)),
    }
}

/// The values of the items of an array.
pub open spec fn items_view(items: Seq<Json>) -> Seq<JsonView>
    decreases items,
{
    if items.len() == 0 {
        seq![]
    } else {
        items_view(items.drop_last()).push(json_view(items[items.len() - 1]))
    }
}

/// The members of an object. Of two members with one key the later counts.
pub open spec fn fields_view(fields: Seq<(String, Json)>) -> Map<Seq<char>, JsonView>
    decreases fields,
{
    if fields.len() == 0 {
        Map::empty()
    } else {
        fields_view(fields.drop_last()).insert(
            fields[fields.len() - 1].0@,
            json_view(fields[fields.len() - 1].1),
        )
    }
}

impl View for Json {
    type V = JsonView;

    open spec fn view(&self) -> JsonView {
        json_view(*self)
    }
}

impl DeepView for Json {
    type V = JsonView;

    open spec fn deep_view(&self) -> JsonView {
        json_view(*self)
    }
}

/// The value under `key`. What is no object has no members.
pub open spec fn member(json: JsonView, key: Seq<char>) -> Option<JsonView> {
    match json {
        JsonView::Object(fields) => if fields.contains_key(key) {
            Some(fields[key])
        } else {
            None
        },
        _ => None,
    }
}

/// The text under `key`, where a string stands there.
pub open spec fn text_member(json: JsonView, key: Seq<char>) -> Option<Seq<char>> {
    match member(json, key) {
        Some(JsonView::Str(text)) => Some(text),
        _ => None,
    }
}

/// The truth value under `key`, where one stands there.
pub open spec fn bool_member(json: JsonView, key: Seq<char>) -> Option<bool> {
    match member(json, key) {
        Some(JsonView::Bool(flag)) => Some(flag),
        _ => None,
    }
}

/// The number under `key`, where one stands there that a `u64` can hold.
pub open spec fn number_member(json: JsonView, key: Seq<char>) -> Option<u64> {
    match member(json, key) {
        Some(JsonView::Number(number)) => number,
        _ => None,
    }
}

impl Json {
    /// The value under `key`.
    pub fn get(&self, key: &str) -> (found: Option<&Json>)
        ensures
            found.deep_view() == member(self@, key@),
    {
        match self {
            Json::Object(fields) => {
                let ghost all = fields_view(fields@);
                let mut i: usize = fields.len();
                assert(fields@.take(i as int) == fields@);
                while i > 0
                    invariant
                        i <= fields@.len(),
                        all == fields_view(fields@),
                        self@ == JsonView::Object(all),
                        all.contains_key(key@) == fields_view(fields@.take(i as int)).contains_key(
                            key@,
                        ),
                        all.contains_key(key@) ==> all[key@] == fields_view(
                            fields@.take(i as int),
                        )[key@],
                    decreases i,
                {
                    let ghost before = fields@.take(i as int);
                    assert(before.drop_last() == fields@.take(i - 1));
                    assert(before[before.len() - 1] == fields@[i - 1]);
                    if str_eq(fields[i - 1].0.as_str(), key) {
                        return Some(&fields[i - 1].1);
                    }
                    i = i - 1;
                }
                assert(fields@.take(0) == Seq::<(String, Json)>::empty());
                None
            },
            _ => None,
        }
    }

    /// The text under `key`.
    pub fn get_text(&self, key: &str) -> (text: Option<String>)
        ensures
            text.deep_view() == text_member(self@, key@),
    {
        match self.get(key) {
            Some(Json::Str(text)) => Some(text.clone()),
            _ => None,
        }
    }

    /// The truth value under `key`.
    pub fn get_bool(&self, key: &str) -> (flag: Option<bool>)
        ensures
            flag == bool_member(self@, key@),
    {
        match self.get(key) {
            Some(Json::Bool(flag)) => Some(*flag),
            _ => None,
        }
    }

    /// The number under `key`.
    pub fn get_number(&self, key: &str) -> (number: Option<u64>)
        ensures
            number == number_member(self@, key@),
    {
        match self.get(key) {
            Some(Json::Number(number)) => *number,
            _ => None,
        }
    }
}

/// The document that `text` writes, or nothing where it is not JSON.
pub fn parse_json(text: &str) -> (json: Option<Json>)
    ensures
        json.deep_view() == json_parsed(text@),
{
    match json_value_from_str(text) {
        Some(value) => Some(json_from_value(value)),
        None => None,
    }
}

// ---------------------------------------------------------------------------
// Laws
// ---------------------------------------------------------------------------

/// A member that is added is found under its key, in the place of an earlier one; what stands under
/// the other keys stays.
pub proof fn later_member_counts(
    fields: Seq<(String, Json)>,
    key: String,
    value: Json,
    other: Seq<char>,
)
    ensures
        member(JsonView::Object(fields_view(fields.push((key, value)))), key@) == Some(value@),
        other != key@ ==> member(JsonView::Object(fields_view(fields.push((key, value)))), other)
            == member(JsonView::Object(fields_view(fields)), other),
        member(JsonView::Object(fields_view(seq![])), other) is None,
{
    let more = fields.push((key, value));
    assert(more.drop_last() == fields);
    assert(more[more.len() - 1] == (key, value));
    assert(fields_view(more) == fields_view(fields).insert(key@, json_view(value)));
}

/// What is no object has no members.
pub proof fn only_objects_have_members(json: JsonView, key: Seq<char>)
    requires
        !(json is Object),
    ensures
        member(json, key) is None,
        text_member(json, key) is None,
        bool_member(json, key) is None,
        number_member(json, key) is None,
{
}

/// A member is read as what it is, and as nothing else: a text as a text, a truth value as a truth
/// value, a number as a number where a `u64` can hold it.
pub proof fn members_are_read_as_they_are(json: JsonView, key: Seq<char>)
    ensures
        member(json, key) is None ==> text_member(json, key) is None && bool_member(json, key) is None
            && number_member(json, key) is None,
        member(json, key) matches Some(value) ==> {
            &&& text_member(json, key) == (if let JsonView::Str(text) = value {
                Some(text)
            } else {
                None
            })
            &&& bool_member(json, key) == (if let JsonView::Bool(flag) = value {
                Some(flag)
            } else {
                None
            })
            &&& number_member(json, key) == (if let JsonView::Number(number) = value {
                number
            } else {
                None
            })
        },
{
}

/// The items of an array keep their order.
pub proof fn items_keep_their_order(items: Seq<Json>, item: Json)
    ensures
        items_view(items.push(item)) == items_view(items).push(item@),
        items_view(seq![]) == Seq::<JsonView>::empty(),
{
    assert(items.push(item).drop_last() == items);
}

} // verus!

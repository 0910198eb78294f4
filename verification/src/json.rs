//! JSON value trees, as the datastore hands them back.

use vstd::prelude::*;
use crate::sorting::{key_texts, lemma_sorted_order, positions, sort_order, sorted_order};
use crate::text::{
    chars_of, decimal, decimal_string, same_text, signed_decimal, signed_decimal_string,
};

verus! {

/// A JSON number: an integer, or the text of a number that is no integer.
#[derive(Debug, PartialEq, Eq)]
pub enum JsonNumber {
    /// A non-negative integer.
    PosInt(u64),
    /// A negative integer.
    NegInt(i64),
    /// Any other number, held as the text that writes it.
    Float(String),
}

/// A JSON value tree. An object holds its members in the order in which
/// they are walked.
#[derive(Debug, PartialEq, Eq)]
pub enum JsonValue {
    Null,
    Bool(bool),
    Number(JsonNumber),
    String(String),
    Array(Vec<JsonValue>),
    Object(Vec<(String, JsonValue)>),
}

/// The mathematical value of a [`JsonNumber`].
pub enum NumberModel {
    PosInt(nat),
    NegInt(int),
    Float(Seq<char>),
}

/// The mathematical value of a [`JsonValue`].
pub enum Json {
    Null,
    Bool(bool),
    Number(NumberModel),
    String(Seq<char>),
    Array(Seq<Json>),
    Object(Seq<(Seq<char>, Json)>),
}

impl View for JsonNumber {
    type V = NumberModel;

    open spec fn view(&self) -> NumberModel {
        match self {
            JsonNumber::PosInt(n) => NumberModel::PosInt(*n as nat),
            JsonNumber::NegInt(i) => NumberModel::NegInt(*i as int),
            JsonNumber::Float(text) => NumberModel::Float(text@),
        }
    }
}

/// The text of a number.
pub open spec fn number_text(number: NumberModel) -> Seq<char> {
    match number {
        NumberModel::PosInt(n) => decimal(n),
        NumberModel::NegInt(i) => signed_decimal(i),
        NumberModel::Float(text) => text,
    }
}

/// The text of a truth value.
pub open spec fn bool_text(b: bool) -> Seq<char> {
    if b {
        "true"@
    } else {
        "false"@
    }
}

impl JsonNumber {
    /// This number as text: an integer in base ten, any other number as
    /// the text it is held as.
    pub fn to_text(&self) -> (text: String)
        ensures
            text@ == number_text(self@),
    {
        match self {
            JsonNumber::PosInt(n) => decimal_string(*n),
            JsonNumber::NegInt(i) => signed_decimal_string(*i),
            JsonNumber::Float(text) => text.clone(),
        }
    }
}

/// The text of a truth value.
pub fn bool_to_text(b: bool) -> (text: String)
    ensures
        text@ == bool_text(b),
{
    if b {
        "true".to_owned()
    } else {
        "false".to_owned()
    }
}

/// The mathematical value of `value`.
pub open spec fn json_model(value: JsonValue) -> Json
    decreases value,
{
    match value {
        JsonValue::Null => Json::Null,
        JsonValue::Bool(b) => Json::Bool(b),
        JsonValue::Number(n) => Json::Number(n@),
        JsonValue::String(s) => Json::String(s@),
        JsonValue::Array(items) => Json::Array(json_models(items@)),
        JsonValue::Object(members) => Json::Object(member_models(members@)),
    }
}

/// The mathematical values of `items`, in order.
pub open spec fn json_models(items: Seq<JsonValue>) -> Seq<Json>
    decreases items,
{
    if items.len() == 0 {
        Seq::empty()
    } else {
        json_models(items.drop_last()).push(json_model(items.last()))
    }
}

/// The mathematical values of an object's `members`, in order.
pub open spec fn member_models(members: Seq<(String, JsonValue)>) -> Seq<(Seq<char>, Json)>
    decreases members,
{
    if members.len() == 0 {
        Seq::empty()
    } else {
        member_models(members.drop_last()).push((members.last().0@, json_model(members.last().1)))
    }
}

impl View for JsonValue {
    type V = Json;

    open spec fn view(&self) -> Json {
        json_model(*self)
    }
}

/// The values of a list are the values of its items, one for one.
pub proof fn lemma_json_models(items: Seq<JsonValue>)
    ensures
        json_models(items).len() == items.len(),
        forall|i: int| 0 <= i < items.len() ==> (#[trigger] json_models(items)[i]) == items[i]@,
    decreases items.len(),
{
    if items.len() > 0 {
        lemma_json_models(items.drop_last());
    }
}

/// The values of an object's members are those of its members, one for
/// one.
pub proof fn lemma_member_models(members: Seq<(String, JsonValue)>)
    ensures
        member_models(members).len() == members.len(),
        forall|i: int|
            0 <= i < members.len() ==> (#[trigger] member_models(members)[i]) == (
                members[i].0@,
                members[i].1@,
            ),
    decreases members.len(),
{
    if members.len() > 0 {
        lemma_member_models(members.drop_last());
    }
}

/// The names of the members of an object, in order.
pub open spec fn member_names(members: Seq<(Seq<char>, Json)>) -> Seq<Seq<char>> {
    members.map_values(|member: (Seq<char>, Json)| member.0)
}

/// The positions of `members` in sorted order of their names, members
/// of one name in the order in which they stand.
pub fn sorted_member_order(members: &Vec<(String, JsonValue)>) -> (order: Vec<usize>)
    ensures
        positions(order@) == sorted_order(member_names(member_models(members@))),
        order@.len() == members@.len(),
        forall|j: int| 0 <= j < order@.len() ==> (#[trigger] order@[j]) < members@.len(),
{
    let ghost models = member_models(members@);
    proof {
        lemma_member_models(members@);
    }
    let mut keys: Vec<Vec<char>> = Vec::new();
    let mut i: usize = 0;
    while i < members.len()
        invariant
            i <= members@.len(),
            models == member_models(members@),
            models.len() == members@.len(),
            forall|k: int|
                0 <= k < members@.len() ==> (#[trigger] models[k]) == (members@[k].0@, members@[k].1@),
            keys@.len() == i,
            forall|k: int| 0 <= k < i ==> (#[trigger] keys@[k])@ == models[k].0,
        decreases members@.len() - i,
    {
        let key = chars_of(members[i].0.as_str());
        keys.push(key);
        i = i + 1;
    }
    assert(key_texts(keys@) =~= member_names(models));
    let order = sort_order(&keys);
    proof {
        lemma_sorted_order(member_names(models));
        assert forall|j: int| 0 <= j < order@.len() implies (#[trigger] order@[j]) < members@.len() by {
            assert(positions(order@)[j] == order@[j]);
        }
    }
    order
}

/// The value of the first of `members` that is named `key`.
pub open spec fn lookup(members: Seq<(Seq<char>, Json)>, key: Seq<char>) -> Option<Json>
    decreases members.len(),
{
    if members.len() == 0 {
        None
    } else if members[0].0 == key {
        Some(members[0].1)
    } else {
        lookup(members.drop_first(), key)
    }
}

impl Json {
    /// The member named `key`, where this value is an object that has one.
    pub open spec fn get(self, key: Seq<char>) -> Option<Json> {
        match self {
            Json::Object(members) => lookup(members, key),
            _ => None,
        }
    }
}

impl JsonValue {
    /// The first of the members of an object that is named `key`.
    pub fn get_member<'a>(members: &'a Vec<(String, JsonValue)>, key: &str) -> (found: Option<
        &'a JsonValue,
    >)
        ensures
            match found {
                Some(value) => lookup(member_models(members@), key@) == Some(value@),
                None => lookup(member_models(members@), key@) is None,
            },
    {
        let mut i: usize = 0;
        proof {
            lemma_member_models(members@);
            assert(member_models(members@).skip(0) == member_models(members@));
        }
        while i < members.len()
            invariant
                i <= members@.len(),
                member_models(members@).len() == members@.len(),
                forall|k: int|
                    0 <= k < members@.len() ==> (#[trigger] member_models(members@)[k]) == (
                        members@[k].0@,
                        members@[k].1@,
                    ),
                lookup(member_models(members@), key@) == lookup(
                    member_models(members@).skip(i as int),
                    key@,
                ),
            decreases members@.len() - i,
        {
            proof {
                let rest = member_models(members@).skip(i as int);
                assert(rest[0] == member_models(members@)[i as int]);
                assert(member_models(members@)[i as int] == (
                    members@[i as int].0@,
                    members@[i as int].1@,
                ));
                assert(rest.drop_first() == member_models(members@).skip(i + 1));
            }
            if same_text(members[i].0.as_str(), key) {
                return Some(&members[i].1);
            }
            i = i + 1;
        }
        None
    }

    /// The member named `key`, where this value is an object that has
    /// one; of several such members the first.
    pub fn get(&self, key: &str) -> (found: Option<&JsonValue>)
        ensures
            match found {
                Some(value) => self@.get(key@) == Some(value@),
                None => self@.get(key@) is None,
            },
    {
        match self {
            JsonValue::Object(members) => JsonValue::get_member(members, key),
            _ => None,
        }
    }
}

/// The JSON string literal for `s`: its characters between double
/// quotes, with the escapes that `serde_json` writes.
pub uninterp spec fn json_string_literal(s: Seq<char>) -> Seq<char>;

/// Formats `serde_json::Value::String` with `to_string`. The result is
/// what the library means by [`json_string_literal`]; nothing more is
/// claimed of it.
#[verifier::external_body]
pub(crate) fn quote_string(s: &str) -> (literal: String)
    ensures
        literal@ == json_string_literal(s@),
{
    serde_json::Value::String(s.to_owned()).to_string()
}

} // verus!

//! JSON documents as plain values, read with `serde_json`.

use vstd::prelude::*;
use crate::text::same;

verus! {

/// One named entry of a JSON object.
#[derive(Debug, PartialEq, Eq)]
pub struct Member {
    pub name: String,
    pub value: Json,
}

/// A JSON value. A number is kept as its decimal text; the members of an object
/// stand in the order in which the parser hands them out.
#[derive(Debug, PartialEq, Eq)]
pub enum Json {
    Null,
    Bool(bool),
    Number(String),
    Text(String),
    Array(Vec<Json>),
    Object(Vec<Member>),
}

/// `at` is the first position in `members` whose entry is named `key`.
pub open spec fn is_first_named(members: Seq<Member>, key: Seq<char>, at: int) -> bool {
    &&& 0 <= at < members.len()
    &&& members[at].name@ == key
    &&& forall|j: int| 0 <= j < at ==> (#[trigger] members[j]).name@ != key
}

/// The value of the first entry of `members` named `key`, if there is one.
pub open spec fn first_named(members: Seq<Member>, key: Seq<char>) -> Option<Json> {
    if exists|at: int| is_first_named(members, key, at) {
        Some(members[choose|at: int| is_first_named(members, key, at)].value)
    } else {
        None
    }
}

/// At most one position is the first one named `key`.
pub proof fn lemma_first_named_is_unique(members: Seq<Member>, key: Seq<char>, a: int, b: int)
    requires
        is_first_named(members, key, a),
        is_first_named(members, key, b),
    ensures
        a == b,
{
    if a < b {
        assert(members[a].name@ != key);
    } else if b < a {
        assert(members[b].name@ != key);
    }
}

/// The value of the first entry named `key`.
pub fn find<'a>(members: &'a Vec<Member>, key: &str) -> (r: Option<&'a Json>)
    ensures
        r is Some == first_named(members@, key@) is Some,
        r is Some ==> *r.unwrap() == first_named(members@, key@).unwrap(),
{
    let mut i: usize = 0;
    while i < members.len()
        invariant
            i <= members.len(),
            forall|j: int| 0 <= j < i ==> (#[trigger] members@[j]).name@ != key@,
        decreases members.len() - i,
    {
        if same(members[i].name.as_str(), key) {
            proof {
                assert(is_first_named(members@, key@, i as int));
                let chosen = choose|at: int| is_first_named(members@, key@, at);
                lemma_first_named_is_unique(members@, key@, chosen, i as int);
            }
            return Some(&members[i].value);
        }
        i += 1;
    }
    assert forall|at: int| !is_first_named(members@, key@, at) by {
        if 0 <= at < members@.len() {
            assert(members@[at].name@ != key@);
        }
    }
    None
}

impl Json {
    /// The member `key` of an object; `None` for a missing member and for every
    /// value that is not an object.
    pub open spec fn member(self, key: Seq<char>) -> Option<Json> {
        match self {
            Json::Object(members) => first_named(members@, key),
            _ => None,
        }
    }

    /// The characters of a JSON string; `None` for every other value.
    pub open spec fn text(self) -> Option<Seq<char>> {
        match self {
            Json::Text(s) => Some(s@),
            _ => None,
        }
    }

    /// The entries of an object; `None` for every other value.
    pub open spec fn members(self) -> Option<Seq<Member>> {
        match self {
            Json::Object(members) => Some(members@),
            _ => None,
        }
    }

    /// Looks up the member `key` of an object.
    pub fn get(&self, key: &str) -> (r: Option<&Json>)
        ensures
            r is Some == self.member(key@) is Some,
            r is Some ==> *r.unwrap() == self.member(key@).unwrap(),
    {
        match self {
            Json::Object(members) => find(members, key),
            _ => None,
        }
    }

    /// The string that a JSON string holds.
    pub fn as_str(&self) -> (r: Option<&str>)
        ensures
            r is Some == self.text() is Some,
            r is Some ==> r.unwrap()@ == self.text().unwrap(),
    {
        match self {
            Json::Text(s) => Some(s.as_str()),
            _ => None,
        }
    }

    /// The entries of a JSON object.
    pub fn as_object(&self) -> (r: Option<&Vec<Member>>)
        ensures
            r is Some == self.members() is Some,
            r is Some ==> r.unwrap()@ == self.members().unwrap(),
    {
        match self {
            Json::Object(members) => Some(members),
            _ => None,
        }
    }
}

/// What `serde_json` makes of a text: the document that the text holds, or the
/// parser's message for a text that is not JSON.
pub uninterp spec fn json_document(text: Seq<char>) -> Result<Json, Seq<char>>;

/// What a `serde_json::Value` holds, as a [`Json`].
pub uninterp spec fn value_json(value: serde_json::Value) -> Json;

/// `serde_json::Value`: what the parser hands to the conversion below. Nothing
/// else in the library looks into it.
#[verifier::external_type_specification]
#[verifier::external_body]
pub struct ExValue(serde_json::Value);

/// Calls `serde_json::from_str` for a `serde_json::Value`. The contract claims
/// only that the outcome is a function of the text: the value of the document,
/// or the text of the error that `serde_json` reports. What the document holds
/// for a given text is not stated.
#[verifier::external_body]
fn read_value(text: &str) -> (r: Result<serde_json::Value, String>)
    ensures
        r is Ok == json_document(text@) is Ok,
        r is Ok ==> value_json(r->Ok_0) == json_document(text@)->Ok_0,
        r is Err ==> r->Err_0@ == json_document(text@)->Err_0,
{
    serde_json::from_str::<serde_json::Value>(text).map_err(|error| error.to_string())
}

/// Moves a `serde_json::Value` into a [`Json`], variant by variant, and the
/// items of an array and the entries of an object one by one, in the order of
/// `Vec::into_iter` and `serde_json::Map::into_iter`. A number becomes the text
/// that `serde_json::Number` prints. The contract gives the result its name and
/// claims no more.
#[verifier::external_body]
fn json_from_value(value: serde_json::Value) -> (r: Json)
    ensures
        r == value_json(value),
{
    match value {
        serde_json::Value::Null => Json::Null,
        serde_json::Value::Bool(b) => Json::Bool(b),
        serde_json::Value::Number(n) => Json::Number(n.to_string()),
        serde_json::Value::String(s) => Json::Text(s),
        serde_json::Value::Array(items) => Json::Array(items.into_iter().map(json_from_value).collect()),
        serde_json::Value::Object(map) => Json::Object(
            map.into_iter().map(|(name, value)| Member { name, value: json_from_value(value) }).collect(),
        ),
    }
}

/// Reads a text as a JSON document; for a text that is not JSON, the parser's
/// message.
pub fn parse(text: &str) -> (r: Result<Json, String>)
    ensures
        r is Ok == json_document(text@) is Ok,
        r is Ok ==> r->Ok_0 == json_document(text@)->Ok_0,
        r is Err ==> r->Err_0@ == json_document(text@)->Err_0,
{
    match read_value(text) {
        Ok(value) => Ok(json_from_value(value)),
        Err(message) => Err(message),
    }
}

} // verus!

//! What the SoundCloud logic reads of a JSON answer.
use vstd::prelude::*;
use crate::text::same_text;

verus! {

/// A JSON value. Numbers are kept without their value, which nothing reads;
/// an object keeps its members in order, each key once.
#[derive(Debug)]
pub enum Json {
    Null,
    Bool(bool),
    Number,
    Str(String),
    Array(Vec<Json>),
    Object(Vec<(String, Json)>),
}

/// serde_json's dynamic JSON value.
#[verifier::external_type_specification]
#[verifier::external_body]
pub struct ExJsonValue(serde_json::Value);

/// What `serde_json::from_str::<serde_json::Value>` makes of `text`, seen as
/// the library's `Json`, or `None` when serde_json refuses the text.
pub uninterp spec fn json_parse(text: Seq<char>) -> Option<Json>;

/// Converts a `serde_json::Value` into the library's `Json`, variant by
/// variant (members in the map's order, numbers without their value). Only
/// `parse_json` calls it; nothing is stated of it, since its argument is
/// opaque here.
#[verifier::external_body]
fn json_of_value(value: serde_json::Value) -> Json {
    match value {
        serde_json::Value::Null => Json::Null,
        serde_json::Value::Bool(b) => Json::Bool(b),
        serde_json::Value::Number(_) => Json::Number,
        serde_json::Value::String(s) => Json::Str(s),
        serde_json::Value::Array(items) => Json::Array(items.into_iter().map(json_of_value).collect()),
        serde_json::Value::Object(members) => Json::Object(members.into_iter().map(|(k, v)| (k, json_of_value(v))).collect()),
    }
}

/// Calls `serde_json::from_str::<serde_json::Value>` and converts the value.
/// The contract claims that the outcome is a function of the text alone:
/// `json_parse` of it when parsing succeeds, an error exactly when it is `None`.
#[verifier::external_body]
pub(crate) fn parse_json(text: &str) -> (r: Result<Json, serde_json::Error>)
    ensures
        match json_parse(text@) {
            Some(j) => (r matches Ok(v) && v == j),
            None => r is Err,
        },
{
    serde_json::from_str::<serde_json::Value>(text).map(json_of_value)
}

/// The value of the first member named `key`.
pub open spec fn member_value(members: Seq<(String, Json)>, key: Seq<char>) -> Option<Json>
    decreases members.len(),
{
    if members.len() == 0 {
        None
    } else if members[0].0@ == key {
        Some(members[0].1)
    } else {
        member_value(members.drop_first(), key)
    }
}

/// The member `key` of `j`, when `j` is an object that has one.
pub open spec fn json_get(j: Json, key: Seq<char>) -> Option<Json> {
    match j {
        Json::Object(members) => member_value(members@, key),
        _ => None,
    }
}

/// The member `key` of `j`, when `j` is present and is an object that has one.
pub open spec fn json_get_opt(j: Option<Json>, key: Seq<char>) -> Option<Json> {
    match j {
        Some(v) => json_get(v, key),
        None => None,
    }
}

/// The text of `j`, when it is a string.
pub open spec fn json_text(j: Option<Json>) -> Option<Seq<char>> {
    match j {
        Some(Json::Str(s)) => Some(s@),
        _ => None,
    }
}

/// The elements of `j`, when it is an array.
pub open spec fn json_items(j: Option<Json>) -> Option<Seq<Json>> {
    match j {
        Some(Json::Array(items)) => Some(items@),
        _ => None,
    }
}

impl Json {
    /// The member `key`, when this is an object that has one.
    pub fn get(&self, key: &str) -> (r: Option<&Json>)
        ensures
            match r {
                Some(v) => json_get(*self, key@) == Some(*v),
                None => json_get(*self, key@) is None,
            },
    {
        match self {
            Json::Object(members) => {
                let mut k: usize = 0;
                assert(json_get(*self, key@) == member_value(members@, key@));
                assert(members@.skip(0) == members@);
                while k < members.len()
                    invariant
                        k <= members.len(),
                        json_get(*self, key@) == member_value(members@, key@),
                        member_value(members@, key@) == member_value(members@.skip(k as int), key@),
                    decreases members.len() - k,
                {
                    assert(members@.skip(k as int).drop_first() == members@.skip(k + 1));
                    if same_text(members[k].0.as_str(), key) {
                        assert(members@.skip(k as int)[0] == members@[k as int]);
                        return Some(&members[k].1);
                    }
                    k += 1;
                }
                None
            },
            _ => None,
        }
    }

    /// The text, when this is a string.
    pub fn as_str(&self) -> (r: Option<&String>)
        ensures
            match r {
                Some(s) => json_text(Some(*self)) == Some(s@),
                None => json_text(Some(*self)) is None,
            },
    {
        match self {
            Json::Str(s) => Some(s),
            _ => None,
        }
    }

    /// The elements, when this is an array.
    pub fn as_array(&self) -> (r: Option<&Vec<Json>>)
        ensures
            match r {
                Some(v) => json_items(Some(*self)) == Some(v@),
                None => json_items(Some(*self)) is None,
            },
    {
        match self {
            Json::Array(items) => Some(items),
            _ => None,
        }
    }
}

} // verus!

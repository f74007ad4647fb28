use vstd::prelude::*;
use crate::text::str_eq;

verus! {

/// A JSON document as plain data.
///
/// Numbers keep their decimal text, so no binary rounding enters the
/// library. An object holds its members as a list, in the order in which
/// they were given; a document that was parsed has each name once, the
/// names in ascending order, as the parser's map yields them.
#[derive(Debug, PartialEq, Eq)]
pub enum Json {
    Null,
    Bool(bool),
    Number(String),
    Str(String),
    Array(Vec<Json>),
    Object(Vec<(String, Json)>),
}

/// A JSON document as `serde_json` holds it.
#[verifier::external_type_specification]
#[verifier::external_body]
pub struct ExValue(serde_json::Value);

/// The document that the JSON text `s` denotes, if `s` is JSON.
pub uninterp spec fn json_of_text(s: Seq<char>) -> Option<Json>;

/// Copies a document of `serde_json` into plain data.
///
/// Tells the variants of `serde_json::Value` apart and moves their fields;
/// a number is written out by `Number::to_string`, the members of an
/// object are taken in the order in which `Map::iter` yields them.
#[verifier::external_body]
fn json_from_value(value: &serde_json::Value) -> Json {
    match value {
        serde_json::Value::Null => Json::Null,
        serde_json::Value::Bool(b) => Json::Bool(*b),
        serde_json::Value::Number(n) => Json::Number(n.to_string()),
        serde_json::Value::String(s) => Json::Str(s.clone()),
        serde_json::Value::Array(items) => Json::Array(items.iter().map(json_from_value).collect()),
        serde_json::Value::Object(members) => Json::Object(
            members.iter().map(|(k, v)| (k.clone(), json_from_value(v))).collect(),
        ),
    }
}

/// Parses JSON text.
///
/// Calls `serde_json::from_str` for a `Value`, which yields the document
/// or an error; the contract gives the document, copied into plain data,
/// the name `json_of_text`, and `None` where `serde_json` reports an error.
#[verifier::external_body]
pub(crate) fn parse_json(text: &str) -> (r: Option<Json>)
    ensures
        r == json_of_text(text@),
{
    match serde_json::from_str::<serde_json::Value>(text) {
        Ok(value) => Some(json_from_value(&value)),
        Err(_) => None,
    }
}

/// The compact JSON text of the document `doc`, if its numbers are JSON
/// numbers.
pub uninterp spec fn text_of_json(doc: Json) -> Option<Seq<char>>;

/// Copies plain data into a document of `serde_json`.
///
/// Builds the variant of `serde_json::Value` that each variant of `Json`
/// stands for; a number is read by `serde_json::from_str`, and the copy
/// fails where that reports an error.
#[verifier::external_body]
fn value_from_json(doc: &Json) -> Option<serde_json::Value> {
    Some(match doc {
        Json::Null => serde_json::Value::Null,
        Json::Bool(b) => serde_json::Value::Bool(*b),
        Json::Number(n) => serde_json::Value::Number(serde_json::from_str(n).ok()?),
        Json::Str(s) => serde_json::Value::String(s.clone()),
        Json::Array(items) => serde_json::Value::Array(
            items.iter().map(value_from_json).collect::<Option<_>>()?,
        ),
        Json::Object(members) => serde_json::Value::Object(
            members.iter().map(|(k, v)| Some((k.clone(), value_from_json(v)?))).collect::<Option<_>>()?,
        ),
    })
}

/// Writes a document as compact JSON text.
///
/// Calls `serde_json::to_string` on the copy of the document; the
/// contract gives the text the name `text_of_json`, and `None` where the
/// document cannot be copied or `serde_json` reports an error.
#[verifier::external_body]
pub(crate) fn write_json(doc: &Json) -> (r: Option<String>)
    ensures
        match r {
            Some(text) => text_of_json(*doc) == Some(text@),
            None => text_of_json(*doc) is None,
        },
{
    match value_from_json(doc) {
        Some(value) => serde_json::to_string(&value).ok(),
        None => None,
    }
}

/// Index of the first member of `members` named `key`, if there is one.
pub open spec fn member_index(members: Seq<(String, Json)>, key: Seq<char>) -> Option<int>
    decreases members.len(),
{
    if members.len() == 0 {
        None
    } else if members[0].0@ == key {
        Some(0)
    } else {
        match member_index(members.drop_first(), key) {
            Some(i) => Some(i + 1),
            None => None,
        }
    }
}

impl Json {
    /// The member named `key` when `self` is an object that has one.
    pub open spec fn field(self, key: Seq<char>) -> Option<Json> {
        match self {
            Json::Object(members) => match member_index(members@, key) {
                Some(i) => Some(members@[i].1),
                None => None,
            },
            _ => None,
        }
    }

    /// The items when `self` is an array.
    pub open spec fn items(self) -> Option<Seq<Json>> {
        match self {
            Json::Array(items) => Some(items@),
            _ => None,
        }
    }

    /// The characters when `self` is a string.
    pub open spec fn text(self) -> Option<Seq<char>> {
        match self {
            Json::Str(s) => Some(s@),
            _ => None,
        }
    }

    /// The decimal text when `self` is a number.
    pub open spec fn numeral(self) -> Option<Seq<char>> {
        match self {
            Json::Number(s) => Some(s@),
            _ => None,
        }
    }

    /// `self` is the string `s`.
    pub open spec fn is_text(self, s: Seq<char>) -> bool {
        self.text() == Some(s)
    }

    /// `self` is the number with the decimal text `s`.
    pub open spec fn is_numeral(self, s: Seq<char>) -> bool {
        self.numeral() == Some(s)
    }

    /// The names of the members, in order, when `self` is an object.
    pub open spec fn names(self) -> Option<Seq<Seq<char>>> {
        match self {
            Json::Object(members) => Some(Seq::new(members@.len(), |i: int| members@[i].0@)),
            _ => None,
        }
    }

    /// The value of the member at position `i` of an object.
    pub open spec fn value_at(self, i: int) -> Json {
        match self {
            Json::Object(members) => members@[i].1,
            _ => Json::Null,
        }
    }

    /// The compact JSON text of this document.
    pub fn to_text(&self) -> (r: Option<String>)
        ensures
            match r {
                Some(text) => text_of_json(*self) == Some(text@),
                None => text_of_json(*self) is None,
            },
    {
        write_json(self)
    }

    /// The items of an array; anything else has none.
    pub fn as_array(&self) -> (r: Option<&Vec<Json>>)
        ensures
            match r {
                Some(v) => self.items() == Some(v@),
                None => self.items() is None,
            },
    {
        match self {
            Json::Array(items) => Some(items),
            _ => None,
        }
    }

    /// The characters of a string; anything else has none.
    pub fn as_str(&self) -> (r: Option<&str>)
        ensures
            match r {
                Some(s) => self.text() == Some(s@),
                None => self.text() is None,
            },
    {
        match self {
            Json::Str(s) => Some(s.as_str()),
            _ => None,
        }
    }

    /// The decimal text of a number; anything else has none.
    pub fn as_number(&self) -> (r: Option<&str>)
        ensures
            match r {
                Some(s) => self.numeral() == Some(s@),
                None => self.numeral() is None,
            },
    {
        match self {
            Json::Number(s) => Some(s.as_str()),
            _ => None,
        }
    }

    /// Looks up the member named `key`; anything but an object has none.
    pub fn get(&self, key: &str) -> (r: Option<&Json>)
        ensures
            match r {
                Some(v) => self.field(key@) == Some(*v),
                None => self.field(key@) is None,
            },
    {
        match self {
            Json::Object(members) => match find_member(members, key) {
                Some(i) => Some(&members[i].1),
                None => None,
            },
            _ => None,
        }
    }
}

/// Position of the first member named `key`.
pub fn find_member(members: &Vec<(String, Json)>, key: &str) -> (r: Option<usize>)
    ensures
        match r {
            Some(i) => member_index(members@, key@) == Some(i as int) && i < members.len(),
            None => member_index(members@, key@) is None,
        },
{
    let mut i: usize = 0;
    proof {
        assert(members@.skip(0) =~= members@);
    }
    while i < members.len()
        invariant
            i <= members.len(),
            member_index(members@, key@) == match member_index(members@.skip(i as int), key@) {
                Some(j) => Some(j + i),
                None => None,
            },
        decreases members.len() - i,
    {
        proof {
            assert(members@.skip(i as int)[0] == members@[i as int]);
            assert(members@.skip(i as int).drop_first() =~= members@.skip(i + 1));
        }
        if str_eq(members[i].0.as_str(), key) {
            return Some(i);
        }
        i += 1;
    }
    None
}

} // verus!

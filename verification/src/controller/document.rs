//! A configuration document: JSON as the application reads it.

use vstd::prelude::*;
use crate::text::str_eq;

verus! {

/// The parser's `serde_json::Value`, carried through as an opaque value.
#[verifier::external_type_specification]
#[verifier::external_body]
pub struct ExJsonValue(serde_json::Value);

/// A JSON value. A number that is an integer of 64 bits is held as such,
/// any other number as its text. An object holds its members in a list;
/// where a name occurs twice, the first member of that name counts.
#[derive(Debug)]
pub enum Json {
    Null,
    Bool(bool),
    Integer(i64),
    Number(String),
    Text(String),
    Array(Vec<Json>),
    Object(Vec<(String, Json)>),
}

/// The document that `text` spells, where it spells one.
pub uninterp spec fn parsed_document(text: Seq<char>) -> Option<Json>;

/// Takes a parsed value over as it stands: `serde_json::Number::as_i64`
/// tells an integer from another number, whose text `Number` shows. Nothing
/// is claimed of the result.
#[verifier::external_body]
fn from_value(value: serde_json::Value) -> (r: Json) {
    match value {
        serde_json::Value::Null => Json::Null,
        serde_json::Value::Bool(b) => Json::Bool(b),
        serde_json::Value::Number(n) => match n.as_i64() {
            Some(i) => Json::Integer(i),
            None => Json::Number(n.to_string()),
        },
        serde_json::Value::String(s) => Json::Text(s),
        serde_json::Value::Array(items) => Json::Array(items.into_iter().map(from_value).collect()),
        serde_json::Value::Object(members) => Json::Object(
            members.into_iter().map(|(k, v)| (k, from_value(v))).collect(),
        ),
    }
}

/// `serde_json::from_str`: reads `text` as one JSON value. The outcome
/// depends on `text` alone; it is known by the name `parsed_document`.
#[verifier::external_body]
pub(crate) fn parse_document(text: &str) -> (r: Option<Json>)
    ensures
        r == parsed_document(text@),
{
    match serde_json::from_str::<serde_json::Value>(text) {
        Ok(value) => Some(from_value(value)),
        Err(_) => None,
    }
}

/// The first member of `members` named `key`.
pub open spec fn first_member(members: Seq<(String, Json)>, key: Seq<char>) -> Option<Json>
    decreases members.len(),
{
    if members.len() == 0 {
        None
    } else if members[0].0@ == key {
        Some(members[0].1)
    } else {
        first_member(members.drop_first(), key)
    }
}

impl Json {
    /// Reads `text` as one JSON value; `None` where it is none.
    pub fn parse(text: &str) -> (r: Option<Json>)
        ensures
            r == parsed_document(text@),
    {
        parse_document(text)
    }

    /// The member named `key` of an object; nothing for a missing member
    /// and for a value that is no object.
    pub open spec fn spec_member(self, key: Seq<char>) -> Option<Json> {
        match self {
            Json::Object(members) => first_member(members@, key),
            _ => None,
        }
    }

    /// The member named `key` of an object.
    pub fn member(&self, key: &str) -> (r: Option<&Json>)
        ensures
            match r {
                Some(found) => self.spec_member(key@) == Some(*found),
                None => self.spec_member(key@) is None,
            },
    {
        match self {
            Json::Object(members) => {
                let mut i: usize = 0;
                assert(members@.skip(0) =~= members@);
                while i < members.len()
                    invariant
                        i <= members.len(),
                        self.spec_member(key@) == first_member(members@, key@),
                        first_member(members@, key@) == first_member(members@.skip(i as int), key@),
                    decreases members.len() - i,
                {
                    proof {
                        assert(members@.skip(i as int)[0] == members@[i as int]);
                        assert(members@.skip(i as int).drop_first() =~= members@.skip(i + 1));
                    }
                    if str_eq(members[i].0.as_str(), key) {
                        return Some(&members[i].1);
                    }
                    i += 1;
                }
                None
            },
            _ => None,
        }
    }

    /// The text of a string value.
    pub open spec fn spec_text(self) -> Option<Seq<char>> {
        match self {
            Json::Text(t) => Some(t@),
            _ => None,
        }
    }

    /// The text of a string value.
    pub fn as_str(&self) -> (r: Option<&str>)
        ensures
            match r {
                Some(t) => self.spec_text() == Some(t@),
                None => self.spec_text() is None,
            },
    {
        match self {
            Json::Text(t) => Some(t.as_str()),
            _ => None,
        }
    }

    /// The integer of a number that is one.
    pub open spec fn spec_integer(self) -> Option<i64> {
        match self {
            Json::Integer(i) => Some(i),
            _ => None,
        }
    }

    /// The integer of a number that is one.
    pub fn as_i64(&self) -> (r: Option<i64>)
        ensures
            r == self.spec_integer(),
    {
        match self {
            Json::Integer(i) => Some(*i),
            _ => None,
        }
    }
}

/// The text of the member `key` of `value`, where there is such a value and
/// such a member and it is a string.
pub open spec fn text_at(value: Option<Json>, key: Seq<char>) -> Option<Seq<char>> {
    match value {
        Some(v) => match v.spec_member(key) {
            Some(m) => m.spec_text(),
            None => None,
        },
        None => None,
    }
}

/// The member `key` of `value`, where there is such a value and such a
/// member.
pub open spec fn member_at(value: Option<Json>, key: Seq<char>) -> Option<Json> {
    match value {
        Some(v) => v.spec_member(key),
        None => None,
    }
}

/// The number that the member `key` of `value` gives for a setting of 32
/// bits: the integer there, cut to 32 bits, and 0 where there is none.
pub open spec fn number_at(value: Option<Json>, key: Seq<char>) -> i32 {
    match member_at(value, key) {
        Some(m) => match m.spec_integer() {
            Some(i) => i as i32,
            None => 0,
        },
        None => 0,
    }
}

/// The member `key` of `value`.
pub fn get_member<'a>(value: Option<&'a Json>, key: &str) -> (r: Option<&'a Json>)
    ensures
        match r {
            Some(found) => member_at(
                match value {
                    Some(v) => Some(*v),
                    None => None,
                },
                key@,
            ) == Some(*found),
            None => member_at(
                match value {
                    Some(v) => Some(*v),
                    None => None,
                },
                key@,
            ) is None,
        },
{
    match value {
        Some(v) => v.member(key),
        None => None,
    }
}

/// The number that the member `key` of `value` gives for a setting of 32
/// bits.
pub fn get_number(value: Option<&Json>, key: &str) -> (r: i32)
    ensures
        r == number_at(
            match value {
                Some(v) => Some(*v),
                None => None,
            },
            key@,
        ),
{
    match get_member(value, key) {
        Some(m) => match m.as_i64() {
            Some(i) => #[verifier::truncate]
            (i as i32),
            None => 0,
        },
        None => 0,
    }
}

} // verus!

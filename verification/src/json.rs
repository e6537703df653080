//! JSON values as the client reads them from the services' answers.
use vstd::prelude::*;

use crate::text::{chars_eq, chars_of};

verus! {

/// A JSON value. Numbers keep their text; object members keep their order
/// (the services' answers come with each key once).
#[derive(Debug, PartialEq)]
pub enum Json {
    Null,
    Bool(bool),
    Number(String),
    String(String),
    Array(Vec<Json>),
    Object(Vec<(String, Json)>),
}

/// The value of the first member named `key`.
pub open spec fn lookup(members: Seq<(String, Json)>, key: Seq<char>) -> Option<Json>
    decreases members.len(),
{
    if members.len() == 0 {
        None
    } else if members[0].0@ == key {
        Some(members[0].1)
    } else {
        lookup(members.drop_first(), key)
    }
}

/// `value.get(key)`: the member `key` of an object; nothing for other values.
pub open spec fn get(j: Json, key: Seq<char>) -> Option<Json> {
    match j {
        Json::Object(members) => lookup(members@, key),
        _ => None,
    }
}

/// `value.as_str()`: the text of a string value.
pub open spec fn str_of(j: Json) -> Option<Seq<char>> {
    match j {
        Json::String(s) => Some(s@),
        _ => None,
    }
}

/// `value[key].as_str()`: the text of member `key`, when it is a string.
pub open spec fn member_str(j: Json, key: Seq<char>) -> Option<Seq<char>> {
    match get(j, key) {
        Some(v) => str_of(v),
        None => None,
    }
}

/// `value[key].as_str().unwrap_or(default)`.
pub open spec fn member_str_or(j: Json, key: Seq<char>, default: Seq<char>) -> Seq<char> {
    match member_str(j, key) {
        Some(s) => s,
        None => default,
    }
}

/// `value.as_array()`: the items of an array value.
pub open spec fn items_of(j: Json) -> Option<Seq<Json>> {
    match j {
        Json::Array(items) => Some(items@),
        _ => None,
    }
}

/// `j` is the string value with text `s`.
pub open spec fn is_string(j: Json, s: Seq<char>) -> bool {
    j matches Json::String(t) && t@ == s
}

/// Looks up `key` among `members`.
fn lookup_exec<'a>(members: &'a Vec<(String, Json)>, key: &[char]) -> (r: Option<&'a Json>)
    ensures
        match lookup(members@, key@) {
            Some(v) => r matches Some(x) && *x == v,
            None => r is None,
        },
{
    let mut i: usize = 0;
    assert(members@.skip(0) =~= members@);
    while i < members.len()
        invariant
            i <= members.len(),
            lookup(members@, key@) == lookup(members@.skip(i as int), key@),
        decreases members.len() - i,
    {
        let ghost rest = members@.skip(i as int);
        assert(rest[0] == members@[i as int]);
        assert(rest.drop_first() =~= members@.skip(i + 1));
        let name = chars_of(members[i].0.as_str());
        if chars_eq(&name, key) {
            return Some(&members[i].1);
        }
        i += 1;
    }
    None
}

impl Json {
    /// The member `key` of an object; `None` for other values.
    pub fn get(&self, key: &str) -> (r: Option<&Json>)
        ensures
            match get(*self, key@) {
                Some(v) => r matches Some(x) && *x == v,
                None => r is None,
            },
    {
        match self {
            Json::Object(members) => {
                let k = chars_of(key);
                lookup_exec(members, &k)
            },
            _ => None,
        }
    }

    /// The text of a string value.
    pub fn as_str(&self) -> (r: Option<&str>)
        ensures
            match str_of(*self) {
                Some(s) => r matches Some(x) && x@ == s,
                None => r is None,
            },
    {
        match self {
            Json::String(s) => Some(s.as_str()),
            _ => None,
        }
    }

    /// The items of an array value.
    pub fn as_array(&self) -> (r: Option<&Vec<Json>>)
        ensures
            match items_of(*self) {
                Some(items) => r matches Some(x) && x@ == items,
                None => r is None,
            },
    {
        match self {
            Json::Array(items) => Some(items),
            _ => None,
        }
    }

    /// The text of member `key`, when it is a string.
    pub fn member_str(&self, key: &str) -> (r: Option<&str>)
        ensures
            match member_str(*self, key@) {
                Some(s) => r matches Some(x) && x@ == s,
                None => r is None,
            },
    {
        match self.get(key) {
            Some(v) => v.as_str(),
            None => None,
        }
    }
}

} // verus!

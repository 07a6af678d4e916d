use vstd::prelude::*;

use crate::text::chars_of;

verus! {

/// A JSON document as the service reads it.
///
/// Numbers are kept as their decimal text: nothing here computes with them.
/// An object keeps its members in the order in which they were read; a
/// lookup finds the first member with the key.
#[derive(Debug)]
pub enum Json {
    Null,
    Bool(bool),
    Number(String),
    Str(String),
    Array(Vec<Json>),
    Object(Vec<(String, Json)>),
}

/// Index of the first member of `fields` named `key`, if any.
pub open spec fn member_index(fields: Seq<(String, Json)>, key: Seq<char>) -> Option<int>
    decreases fields.len(),
{
    if fields.len() == 0 {
        None
    } else if fields[0].0@ == key {
        Some(0)
    } else {
        match member_index(fields.drop_first(), key) {
            Some(i) => Some(i + 1),
            None => None,
        }
    }
}

/// The first member of `fields` named `key`, if any.
pub open spec fn member(fields: Seq<(String, Json)>, key: Seq<char>) -> Option<Json> {
    match member_index(fields, key) {
        Some(i) => Some(fields[i].1),
        None => None,
    }
}

impl Json {
    /// `self[key]` for an object; nothing for any other value.
    pub open spec fn field(self, key: Seq<char>) -> Option<Json> {
        match self {
            Json::Object(fields) => member(fields@, key),
            _ => None,
        }
    }

    /// The text of a JSON string; nothing for any other value.
    pub open spec fn text(self) -> Option<Seq<char>> {
        match self {
            Json::Str(s) => Some(s@),
            _ => None,
        }
    }

    /// The value of a JSON boolean; nothing for any other value.
    pub open spec fn boolean(self) -> Option<bool> {
        match self {
            Json::Bool(b) => Some(b),
            _ => None,
        }
    }

    /// The member named `key` of an object (`serde_json::Value::get`).
    pub fn get(&self, key: &str) -> (r: Option<&Json>)
        ensures
            r is Some == self.field(key@) is Some,
            r matches Some(v) ==> self.field(key@) == Some(*v),
    {
        match self {
            Json::Object(fields) => lookup_member(fields, key),
            _ => None,
        }
    }

    /// The text of a JSON string (`serde_json::Value::as_str`).
    pub fn as_text(&self) -> (r: Option<&String>)
        ensures
            r is Some == self.text() is Some,
            r matches Some(s) ==> self.text() == Some(s@),
    {
        match self {
            Json::Str(s) => Some(s),
            _ => None,
        }
    }

    /// The value of a JSON boolean (`serde_json::Value::as_bool`).
    pub fn as_boolean(&self) -> (r: Option<bool>)
        ensures
            r == self.boolean(),
    {
        match self {
            Json::Bool(b) => Some(*b),
            _ => None,
        }
    }
}

/// The first member of `fields` named `key`.
pub fn lookup_member<'a>(fields: &'a Vec<(String, Json)>, key: &str) -> (r: Option<&'a Json>)
    ensures
        r is Some == member(fields@, key@) is Some,
        r matches Some(v) ==> member(fields@, key@) == Some(*v),
{
    let mut i: usize = 0;
    assert(fields@.subrange(0, fields@.len() as int) =~= fields@);
    while i < fields.len()
        invariant
            i <= fields@.len(),
            member_index(fields@, key@) == match member_index(
                fields@.subrange(i as int, fields@.len() as int),
                key@,
            ) {
                Some(j) => Some(j + i),
                None => None::<int>,
            },
        decreases fields@.len() - i,
    {
        let ghost rest = fields@.subrange(i as int, fields@.len() as int);
        proof {
            assert(rest.drop_first() =~= fields@.subrange(i + 1, fields@.len() as int));
            assert(rest[0] == fields@[i as int]);
        }
        if same_text(fields[i].0.as_str(), key) {
            assert(member_index(rest, key@) == Some(0int));
            assert(member_index(fields@, key@) == Some(i as int));
            return Some(&fields[i].1);
        }
        i = i + 1;
    }
    assert(fields@.subrange(i as int, fields@.len() as int).len() == 0);
    None
}

/// Whether two texts hold the same characters.
pub fn same_text(a: &str, b: &str) -> (r: bool)
    ensures
        r == (a@ == b@),
{
    let x = chars_of(a);
    let y = chars_of(b);
    if x.len() != y.len() {
        return false;
    }
    let mut i: usize = 0;
    while i < x.len()
        invariant
            x@ == a@,
            y@ == b@,
            x@.len() == y@.len(),
            i <= x@.len(),
            forall|k: int| 0 <= k < i ==> x@[k] == y@[k],
        decreases x@.len() - i,
    {
        if x[i] != y[i] {
            return false;
        }
        i = i + 1;
    }
    assert(a@ =~= b@);
    true
}

} // verus!

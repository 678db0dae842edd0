//! The JSON values that the command tree is built from: the parts of a
//! parsed response body that the client reads, with the accessors it uses.
use vstd::prelude::*;
use crate::text::str_eq;

verus! {

/// A JSON value. Numbers are kept without their value, which the client
/// never reads. An object keeps its members in order.
pub enum Json {
    Null,
    Bool(bool),
    Number,
    Str(String),
    Array(Vec<Json>),
    Object(Vec<(String, Json)>),
}

/// The index of the first member of `entries`, from `p` on, named `key`;
/// `entries.len()` when there is none.
pub open spec fn key_index_from(entries: Seq<(String, Json)>, key: Seq<char>, p: int) -> int
    decreases entries.len() - p,
{
    if p >= entries.len() {
        entries.len() as int
    } else if entries[p].0@ == key {
        p
    } else {
        key_index_from(entries, key, p + 1)
    }
}

/// The index of the first member named `key`, or `entries.len()`.
pub open spec fn key_index(entries: Seq<(String, Json)>, key: Seq<char>) -> int {
    key_index_from(entries, key, 0)
}

/// The member `key` of an object; `None` for other values and missing keys.
pub open spec fn json_get(j: Json, key: Seq<char>) -> Option<Json> {
    match j {
        Json::Object(v) => {
            let i = key_index(v@, key);
            if 0 <= i < v@.len() {
                Some(v@[i].1)
            } else {
                None
            }
        },
        _ => None,
    }
}

/// `json_get` followed by taking a string.
pub open spec fn get_str(j: Json, key: Seq<char>) -> Option<Seq<char>> {
    match json_get(j, key) {
        Some(Json::Str(s)) => Some(s@),
        _ => None,
    }
}

/// `json_get` followed by taking a boolean.
pub open spec fn get_bool(j: Json, key: Seq<char>) -> Option<bool> {
    match json_get(j, key) {
        Some(Json::Bool(b)) => Some(b),
        _ => None,
    }
}

impl Json {
    /// The member `key` of an object, as `serde_json::Value::get` gives it.
    pub fn get(&self, key: &str) -> (r: Option<&Json>)
        ensures
            match r {
                Some(v) => json_get(*self, key@) == Some(*v),
                None => json_get(*self, key@).is_none(),
            },
    {
        match self {
            Json::Object(v) => {
                let mut i: usize = 0;
                while i < v.len()
                    invariant
                        *self == Json::Object(*v),
                        i <= v@.len(),
                        key_index(v@, key@) == key_index_from(v@, key@, i as int),
                    decreases v@.len() - i,
                {
                    if str_eq(v[i].0.as_str(), key) {
                        assert(key_index_from(v@, key@, i as int) == i as int);
                        return Some(&v[i].1);
                    }
                    i = i + 1;
                }
                None
            },
            _ => None,
        }
    }

    /// The string, if this is one.
    pub fn as_str(&self) -> (r: Option<&String>)
        ensures
            match r {
                Some(s) => *self == Json::Str(*s),
                None => !(self is Str),
            },
    {
        match self {
            Json::Str(s) => Some(s),
            _ => None,
        }
    }

    /// The boolean, if this is one.
    pub fn as_bool(&self) -> (r: Option<bool>)
        ensures
            match r {
                Some(b) => *self == Json::Bool(b),
                None => !(self is Bool),
            },
    {
        match self {
            Json::Bool(b) => Some(*b),
            _ => None,
        }
    }

    /// The members, if this is an object.
    pub fn as_object(&self) -> (r: Option<&Vec<(String, Json)>>)
        ensures
            match r {
                Some(v) => *self == Json::Object(*v),
                None => !(self is Object),
            },
    {
        match self {
            Json::Object(v) => Some(v),
            _ => None,
        }
    }

    /// The elements, if this is an array.
    pub fn as_array(&self) -> (r: Option<&Vec<Json>>)
        ensures
            match r {
                Some(v) => *self == Json::Array(*v),
                None => !(self is Array),
            },
    {
        match self {
            Json::Array(v) => Some(v),
            _ => None,
        }
    }
}

/// `get(key)` followed by `as_str`, cloned.
pub fn get_string(j: &Json, key: &str) -> (r: Option<String>)
    ensures
        match r {
            Some(s) => get_str(*j, key@) == Some(s@),
            None => get_str(*j, key@).is_none(),
        },
{
    match j.get(key) {
        Some(v) => match v.as_str() {
            Some(s) => Some(s.clone()),
            None => None,
        },
        None => None,
    }
}

/// `get(key)` followed by `as_bool`, defaulting to `false`.
pub fn get_flag(j: &Json, key: &str) -> (r: bool)
    ensures
        r == (get_bool(*j, key@) == Some(true)),
{
    match j.get(key) {
        Some(v) => match v.as_bool() {
            Some(b) => b,
            None => false,
        },
        None => false,
    }
}

} // verus!

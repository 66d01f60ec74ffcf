//! The JSON values that DAP requests carry as their `arguments`.
//!
//! A request's arguments are arbitrary JSON chosen by the client; the
//! adapter reads a handful of fields out of them.  This type holds such a
//! value as plain data, so that what is read, and the defaults used when a
//! field is missing or of the wrong kind, can be stated and proved.
use vstd::prelude::*;

verus! {

/// A JSON value.
///
/// Numbers keep the distinctions that matter when they are read: an
/// integer that fits in `i64`, an integer above `i64::MAX`, or a number with
/// a fraction or exponent (held by its text, never computed with).
#[derive(Debug)]
pub enum Json {
    Null,
    Bool(bool),
    /// An integer in the range of `i64`.
    Int(i64),
    /// An integer above `i64::MAX`.
    BigUInt(u64),
    /// A number that is not an integer, by its decimal text.
    Float(String),
    Str(String),
    Array(Vec<Json>),
    /// The members of an object, in order; keys are unique.
    Object(Vec<(String, Json)>),
}

/// The value of the first member named `key`, if any.
pub open spec fn members_get(m: Seq<(String, Json)>, key: Seq<char>) -> Option<Json>
    decreases m.len(),
{
    if m.len() == 0 {
        None
    } else if m[0].0@ == key {
        Some(m[0].1)
    } else {
        members_get(m.drop_first(), key)
    }
}

impl Json {
    /// The member `key` of an object; `None` for a missing key or a value
    /// that is not an object.
    pub open spec fn spec_get(self, key: Seq<char>) -> Option<Json> {
        match self {
            Json::Object(m) => members_get(m@, key),
            _ => None,
        }
    }

    /// The value as an `i64`, if it is an integer in that range.
    pub open spec fn spec_as_i64(self) -> Option<i64> {
        match self {
            Json::Int(i) => Some(i),
            Json::BigUInt(u) => if u <= i64::MAX {
                Some(u as i64)
            } else {
                None
            },
            _ => None,
        }
    }

    /// The value as a `u64`, if it is a non-negative integer.
    pub open spec fn spec_as_u64(self) -> Option<u64> {
        match self {
            Json::Int(i) => if i >= 0 {
                Some(i as u64)
            } else {
                None
            },
            Json::BigUInt(u) => Some(u),
            _ => None,
        }
    }

    /// The text of a string value.
    pub open spec fn spec_as_str(self) -> Option<Seq<char>> {
        match self {
            Json::Str(s) => Some(s@),
            _ => None,
        }
    }

    /// The elements of an array value.
    pub open spec fn spec_as_array(self) -> Option<Seq<Json>> {
        match self {
            Json::Array(a) => Some(a@),
            _ => None,
        }
    }

    /// The member `key` of an object, as `serde_json::Value::get` finds it.
    pub fn get(&self, key: &str) -> (r: Option<&Json>)
        ensures
            match r {
                Some(v) => self.spec_get(key@) == Some(*v),
                None => self.spec_get(key@) is None,
            },
    {
        match self {
            Json::Object(m) => {
                let mut i: usize = 0;
                assert(m@.skip(0) =~= m@);
                while i < m.len()
                    invariant
                        i <= m@.len(),
                        self.spec_get(key@) == members_get(m@, key@),
                        members_get(m@, key@) == members_get(m@.skip(i as int), key@),
                    decreases m.len() - i,
                {
                    proof {
                        assert(m@.skip(i as int).drop_first() =~= m@.skip(i + 1));
                    }
                    if crate::text::str_eq(m[i].0.as_str(), key) {
                        assert(m@.skip(i as int)[0] == m@[i as int]);
                        return Some(&m[i].1);
                    }
                    i = i + 1;
                }
                assert(m@.skip(i as int).len() == 0);
                None
            },
            _ => None,
        }
    }

    /// The value as an `i64`, as `serde_json::Value::as_i64` reads it.
    pub fn as_i64(&self) -> (r: Option<i64>)
        ensures
            r == self.spec_as_i64(),
    {
        match self {
            Json::Int(i) => Some(*i),
            Json::BigUInt(u) => if *u <= 0x7fff_ffff_ffff_ffff {
                Some(*u as i64)
            } else {
                None
            },
            _ => None,
        }
    }

    /// The value as a `u64`, as `serde_json::Value::as_u64` reads it.
    pub fn as_u64(&self) -> (r: Option<u64>)
        ensures
            r == self.spec_as_u64(),
    {
        match self {
            Json::Int(i) => if *i >= 0 {
                Some(*i as u64)
            } else {
                None
            },
            Json::BigUInt(u) => Some(*u),
            _ => None,
        }
    }

    /// The text of a string value, as `serde_json::Value::as_str` reads it.
    pub fn as_str(&self) -> (r: Option<&str>)
        ensures
            match r {
                Some(s) => self.spec_as_str() == Some(s@),
                None => self.spec_as_str() is None,
            },
    {
        match self {
            Json::Str(s) => Some(s.as_str()),
            _ => None,
        }
    }

    /// The elements of an array value, as `serde_json::Value::as_array` reads them.
    pub fn as_array(&self) -> (r: Option<&Vec<Json>>)
        ensures
            match r {
                Some(a) => self.spec_as_array() == Some(a@),
                None => self.spec_as_array() is None,
            },
    {
        match self {
            Json::Array(a) => Some(a),
            _ => None,
        }
    }
}

} // verus!

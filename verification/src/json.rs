//! A plain model of the JSON documents that the Kite API answers with, and
//! the accessors the rest of the crate navigates them by.
use vstd::prelude::*;
use crate::text::str_eq;

verus! {

/// A JSON number as the API's JSON reader keeps it: a non-negative integer,
/// a negative integer, or a floating-point value held by its IEEE-754 bit
/// pattern (this crate does no floating-point arithmetic).
#[derive(Debug, Clone, Copy, PartialEq, Eq, Structural)]
pub enum JsonNumber {
    PosInt(u64),
    NegInt(i64),
    Float(u64),
}

/// A JSON value. An object is a list of members in the order they were
/// handed over (from a parsed reply: `serde_json`'s map order, which is
/// ascending key order); a lookup takes the first member of a name.
#[derive(Debug)]
pub enum Json {
    Null,
    Bool(bool),
    Number(JsonNumber),
    Str(String),
    Array(Vec<Json>),
    Object(Vec<(String, Json)>),
}

/// The value of the first member named `key`.
pub open spec fn lookup(entries: Seq<(String, Json)>, key: Seq<char>) -> Option<Json>
    decreases entries.len(),
{
    if entries.len() == 0 {
        None
    } else if entries[0].0@ == key {
        Some(entries[0].1)
    } else {
        lookup(entries.drop_first(), key)
    }
}

impl Json {
    /// `value.get(key)`: the member `key` of an object; nothing otherwise.
    pub open spec fn field(self, key: Seq<char>) -> Option<Json> {
        match self {
            Json::Object(entries) => lookup(entries@, key),
            _ => None,
        }
    }

    pub open spec fn str_value(self) -> Option<Seq<char>> {
        match self {
            Json::Str(s) => Some(s@),
            _ => None,
        }
    }

    pub open spec fn array_items(self) -> Option<Seq<Json>> {
        match self {
            Json::Array(v) => Some(v@),
            _ => None,
        }
    }

    pub open spec fn object_members(self) -> Option<Seq<(String, Json)>> {
        match self {
            Json::Object(v) => Some(v@),
            _ => None,
        }
    }

    /// `as_i64`: integers that fit an `i64`.
    pub open spec fn i64_value(self) -> Option<i64> {
        match self {
            Json::Number(JsonNumber::PosInt(n)) => if n <= i64::MAX {
                Some(n as i64)
            } else {
                None
            },
            Json::Number(JsonNumber::NegInt(n)) => Some(n),
            _ => None,
        }
    }

    /// `as_u64`: non-negative integers.
    pub open spec fn u64_value(self) -> Option<u64> {
        match self {
            Json::Number(JsonNumber::PosInt(n)) => Some(n),
            _ => None,
        }
    }

    /// The number itself; it is what `as_f64` reads a price from.
    pub open spec fn number_value(self) -> Option<JsonNumber> {
        match self {
            Json::Number(n) => Some(n),
            _ => None,
        }
    }

    /// `v.get("data").unwrap_or(v)`: the payload of a reply that may or may
    /// not wrap it in a `data` member.
    pub open spec fn payload(self) -> Json {
        match self.field("data"@) {
            Some(d) => d,
            None => self,
        }
    }

    /// The rows of a reply: the array under `data`, else the reply itself
    /// when it is an array.
    pub open spec fn rows(self) -> Option<Seq<Json>> {
        match self.field("data"@) {
            Some(d) => match d.array_items() {
                Some(a) => Some(a),
                None => self.array_items(),
            },
            None => self.array_items(),
        }
    }

    /// The member `key` of an object.
    pub fn get(&self, key: &str) -> (r: Option<&Json>)
        ensures
            r matches Some(x) ==> self.field(key@) == Some(*x),
            r is None ==> self.field(key@) is None,
    {
        match self {
            Json::Object(entries) => {
                let mut i: usize = 0;
                assert(entries@.skip(0) =~= entries@);
                while i < entries.len()
                    invariant
                        i <= entries@.len(),
                        self.field(key@) == lookup(entries@, key@),
                        lookup(entries@, key@) == lookup(entries@.skip(i as int), key@),
                    decreases entries@.len() - i,
                {
                    let e = &entries[i];
                    assert(entries@.skip(i as int).drop_first() =~= entries@.skip(i + 1));
                    assert(entries@.skip(i as int)[0] == entries@[i as int]);
                    if str_eq(e.0.as_str(), key) {
                        return Some(&e.1);
                    }
                    i = i + 1;
                }
                None
            },
            _ => None,
        }
    }

    pub fn as_str(&self) -> (r: Option<&str>)
        ensures
            r matches Some(s) ==> self.str_value() == Some(s@),
            r is None ==> self.str_value() is None,
    {
        match self {
            Json::Str(s) => Some(s.as_str()),
            _ => None,
        }
    }

    pub fn as_array(&self) -> (r: Option<&Vec<Json>>)
        ensures
            r matches Some(v) ==> self.array_items() == Some(v@),
            r is None ==> self.array_items() is None,
    {
        match self {
            Json::Array(v) => Some(v),
            _ => None,
        }
    }

    pub fn as_object(&self) -> (r: Option<&Vec<(String, Json)>>)
        ensures
            r matches Some(v) ==> self.object_members() == Some(v@),
            r is None ==> self.object_members() is None,
    {
        match self {
            Json::Object(v) => Some(v),
            _ => None,
        }
    }

    pub fn as_i64(&self) -> (r: Option<i64>)
        ensures
            r == self.i64_value(),
    {
        match self {
            Json::Number(JsonNumber::PosInt(n)) => if *n <= 0x7fff_ffff_ffff_ffffu64 {
                Some(*n as i64)
            } else {
                None
            },
            Json::Number(JsonNumber::NegInt(n)) => Some(*n),
            _ => None,
        }
    }

    pub fn as_u64(&self) -> (r: Option<u64>)
        ensures
            r == self.u64_value(),
    {
        match self {
            Json::Number(JsonNumber::PosInt(n)) => Some(*n),
            _ => None,
        }
    }

    pub fn as_number(&self) -> (r: Option<JsonNumber>)
        ensures
            r == self.number_value(),
    {
        match self {
            Json::Number(n) => Some(*n),
            _ => None,
        }
    }

    pub fn payload_ref(&self) -> (r: &Json)
        ensures
            *r == self.payload(),
    {
        match self.get("data") {
            Some(d) => d,
            None => self,
        }
    }

    pub fn rows_ref(&self) -> (r: Option<&Vec<Json>>)
        ensures
            r matches Some(v) ==> self.rows() == Some(v@),
            r is None ==> self.rows() is None,
    {
        match self.get("data") {
            Some(d) => match d.as_array() {
                Some(a) => Some(a),
                None => self.as_array(),
            },
            None => self.as_array(),
        }
    }

    /// A string member of an object.
    pub open spec fn str_field(self, key: Seq<char>) -> Option<Seq<char>> {
        match self.field(key) {
            Some(v) => v.str_value(),
            None => None,
        }
    }

    pub open spec fn i64_field(self, key: Seq<char>) -> Option<i64> {
        match self.field(key) {
            Some(v) => v.i64_value(),
            None => None,
        }
    }

    pub open spec fn u64_field(self, key: Seq<char>) -> Option<u64> {
        match self.field(key) {
            Some(v) => v.u64_value(),
            None => None,
        }
    }

    pub open spec fn number_field(self, key: Seq<char>) -> Option<JsonNumber> {
        match self.field(key) {
            Some(v) => v.number_value(),
            None => None,
        }
    }

    pub fn get_str(&self, key: &str) -> (r: Option<&str>)
        ensures
            r matches Some(s) ==> self.str_field(key@) == Some(s@),
            r is None ==> self.str_field(key@) is None,
    {
        match self.get(key) {
            Some(v) => v.as_str(),
            None => None,
        }
    }

    pub fn get_i64(&self, key: &str) -> (r: Option<i64>)
        ensures
            r == self.i64_field(key@),
    {
        match self.get(key) {
            Some(v) => v.as_i64(),
            None => None,
        }
    }

    pub fn get_u64(&self, key: &str) -> (r: Option<u64>)
        ensures
            r == self.u64_field(key@),
    {
        match self.get(key) {
            Some(v) => v.as_u64(),
            None => None,
        }
    }

    pub fn get_number(&self, key: &str) -> (r: Option<JsonNumber>)
        ensures
            r == self.number_field(key@),
    {
        match self.get(key) {
            Some(v) => v.as_number(),
            None => None,
        }
    }
}

} // verus!

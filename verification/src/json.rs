//! A model of JSON values, as the platform stores free-form component
//! parameters, asset metadata and build configuration.
//!
//! A number keeps the three forms a JSON number can take: a non-negative
//! integer, a negative integer, or a floating-point number, which is held as
//! its IEEE-754 bit pattern.  An object keeps its fields in order.

use crate::text::str_eq;
use vstd::prelude::*;

verus! {

/// A JSON number.
#[derive(Debug, Clone, Copy)]
pub enum JsonNumber {
    /// A non-negative integer.
    PosInt(u64),
    /// A negative integer.
    NegInt(i64),
    /// A floating-point number, as the bits of an `f64`.
    Float(u64),
}

/// A JSON value.
#[derive(Debug)]
pub enum JsonValue {
    Null,
    Bool(bool),
    Number(JsonNumber),
    String(String),
    Array(Vec<JsonValue>),
    Object(Vec<(String, JsonValue)>),
}

/// The value of the first field of `fields` named `key`.
pub open spec fn field_lookup(fields: Seq<(String, JsonValue)>, key: Seq<char>) -> Option<
    JsonValue,
>
    decreases fields.len(),
{
    if fields.len() == 0 {
        None
    } else if fields[0].0@ == key {
        Some(fields[0].1)
    } else {
        field_lookup(fields.drop_first(), key)
    }
}

impl JsonValue {
    /// The field `key` of an object; `None` for other values.
    pub open spec fn spec_get(self, key: Seq<char>) -> Option<JsonValue> {
        match self {
            JsonValue::Object(fields) => field_lookup(fields@, key),
            _ => None,
        }
    }

    /// The text of a string value.
    pub open spec fn spec_as_str(self) -> Option<Seq<char>> {
        match self {
            JsonValue::String(s) => Some(s@),
            _ => None,
        }
    }

    /// The integer of a non-negative integer value.
    pub open spec fn spec_as_u64(self) -> Option<u64> {
        match self {
            JsonValue::Number(JsonNumber::PosInt(n)) => Some(n),
            _ => None,
        }
    }

    /// The elements of an array value.
    pub open spec fn spec_as_array(self) -> Option<Seq<JsonValue>> {
        match self {
            JsonValue::Array(items) => Some(items@),
            _ => None,
        }
    }

    /// Looks up the field `key` of an object.
    pub fn get(&self, key: &str) -> (r: Option<&JsonValue>)
        ensures
            match r {
                Some(v) => self.spec_get(key@) == Some(*v),
                None => self.spec_get(key@) is None,
            },
    {
        match self {
            JsonValue::Object(fields) => {
                let mut i: usize = 0;
                assert(fields@.skip(0) =~= fields@);
                while i < fields.len()
                    invariant
                        i <= fields@.len(),
                        self.spec_get(key@) == field_lookup(fields@, key@),
                        field_lookup(fields@, key@) == field_lookup(fields@.skip(i as int), key@),
                    decreases fields@.len() - i,
                {
                    assert(fields@.skip(i as int).drop_first() =~= fields@.skip(i + 1));
                    assert(fields@.skip(i as int)[0] == fields@[i as int]);
                    if str_eq(fields[i].0.as_str(), key) {
                        assert(fields@.skip(i as int).len() > 0);
                        assert(field_lookup(fields@.skip(i as int), key@) == Some(fields@[i as int].1));
                        return Some(&fields[i].1);
                    }
                    i = i + 1;
                }
                None
            },
            _ => None,
        }
    }

    /// The text of a string value.
    pub fn as_str(&self) -> (r: Option<&str>)
        ensures
            match r {
                Some(s) => self.spec_as_str() == Some(s@),
                None => self.spec_as_str() is None,
            },
    {
        match self {
            JsonValue::String(s) => Some(s.as_str()),
            _ => None,
        }
    }

    /// The integer of a non-negative integer value.
    pub fn as_u64(&self) -> (r: Option<u64>)
        ensures
            r == self.spec_as_u64(),
    {
        match self {
            JsonValue::Number(JsonNumber::PosInt(n)) => Some(*n),
            _ => None,
        }
    }

    /// The elements of an array value.
    pub fn as_array(&self) -> (r: Option<&Vec<JsonValue>>)
        ensures
            match r {
                Some(a) => self.spec_as_array() == Some(a@),
                None => self.spec_as_array() is None,
            },
    {
        match self {
            JsonValue::Array(items) => Some(items),
            _ => None,
        }
    }
}

} // verus!

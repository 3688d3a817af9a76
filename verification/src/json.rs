//! JSON documents as plain values.
//!
//! The text is parsed by `serde_json`; what comes back is copied into
//! [`Json`], a type that the decoding rules can be proved on.

use vstd::prelude::*;

verus! {

/// `serde_json::Value`, declared so that one can be handed from the call
/// that parses to the call that copies. Nothing inside it is visible to the
/// proofs.
#[verifier::external_type_specification]
#[verifier::external_body]
pub struct ExValue(serde_json::Value);

/// A JSON document.
///
/// A number keeps its value only where it is a non-negative integer below
/// `2^64`: the feed's frames carry no other numbers that are read as
/// numbers. The fields of an object stand in the order in which the parser
/// hands them out, each key once.
#[derive(Debug, PartialEq, Eq)]
pub enum Json {
    Null,
    Bool(bool),
    Number(Option<u64>),
    Text(String),
    Array(Vec<Json>),
    Object(Vec<(String, Json)>),
}

/// The document that `serde_json::from_str` reads from `text`, if it takes
/// `text` for JSON. Trusted to exist: that the same text always gives the
/// same document.
pub uninterp spec fn parsed_json(text: Seq<char>) -> Option<Json>;

/// The document that a `serde_json::Value` holds: its variant, and under it
/// the boolean, the number as `serde_json::Number::as_u64` gives it, the
/// string, the elements in their order, or the fields as
/// `serde_json::Map::iter` walks them.
pub uninterp spec fn value_json(value: serde_json::Value) -> Json;

/// Calls `serde_json::from_str` for a `serde_json::Value`.
///
/// Trusted: the call succeeds exactly on the texts for which [`parsed_json`]
/// is defined, and the value returned holds that document. Nothing is claimed
/// about which texts those are.
#[verifier::external_body]
fn value_from_text(text: &str) -> (r: Option<serde_json::Value>)
    ensures
        r is Some <==> parsed_json(text@) is Some,
        r matches Some(v) ==> parsed_json(text@) == Some(value_json(v)),
{
    serde_json::from_str::<serde_json::Value>(text).ok()
}

/// Copies a `serde_json::Value` into a [`Json`], one arm for each variant
/// of `serde_json::Value`; a number goes through
/// `serde_json::Number::as_u64`, the fields of an object through
/// `serde_json::Map::iter`.
///
/// Trusted: the result is the document that the value holds, which is what
/// [`value_json`] names. No claim is made on what that document is.
#[verifier::external_body]
fn json_from_value(value: &serde_json::Value) -> (r: Json)
    ensures
        r == value_json(*value),
{
    match value {
        serde_json::Value::Null => Json::Null,
        serde_json::Value::Bool(b) => Json::Bool(*b),
        serde_json::Value::Number(n) => Json::Number(n.as_u64()),
        serde_json::Value::String(s) => Json::Text(s.clone()),
        serde_json::Value::Array(items) => Json::Array(
            items.iter().map(json_from_value).collect(),
        ),
        serde_json::Value::Object(fields) => Json::Object(
            fields.iter().map(|(k, v)| (k.clone(), json_from_value(v))).collect(),
        ),
    }
}

/// The value of the first field of `fields` whose key is `name`.
pub open spec fn field_of(fields: Seq<(String, Json)>, name: Seq<char>) -> Option<Json>
    decreases fields.len(),
{
    if fields.len() == 0 {
        None
    } else if fields[0].0@ == name {
        Some(fields[0].1)
    } else {
        field_of(fields.drop_first(), name)
    }
}

impl Json {
    /// Parses a JSON text.
    pub fn parse(text: &str) -> (r: Option<Json>)
        ensures
            r == parsed_json(text@),
    {
        match value_from_text(text) {
            Some(value) => Some(json_from_value(&value)),
            None => None,
        }
    }

    /// The number as a `u32`, if this is a non-negative integer that fits.
    pub open spec fn spec_as_u32(self) -> Option<u32> {
        match self {
            Json::Number(Some(n)) => if n <= u32::MAX {
                Some(n as u32)
            } else {
                None
            },
            _ => None,
        }
    }

    /// The number as a `u32`, if this is a non-negative integer that fits.
    pub fn as_u32(&self) -> (r: Option<u32>)
        ensures
            r == self.spec_as_u32(),
    {
        match self {
            Json::Number(Some(n)) => if *n <= 0xffff_ffffu64 {
                Some(*n as u32)
            } else {
                None
            },
            _ => None,
        }
    }

    /// The number as a `u8`, if this is a non-negative integer that fits.
    pub open spec fn spec_as_u8(self) -> Option<u8> {
        match self {
            Json::Number(Some(n)) => if n <= u8::MAX {
                Some(n as u8)
            } else {
                None
            },
            _ => None,
        }
    }

    /// The number as a `u8`, if this is a non-negative integer that fits.
    pub fn as_u8(&self) -> (r: Option<u8>)
        ensures
            r == self.spec_as_u8(),
    {
        match self {
            Json::Number(Some(n)) => if *n <= 0xffu64 {
                Some(*n as u8)
            } else {
                None
            },
            _ => None,
        }
    }

    /// The characters of a string.
    pub open spec fn spec_as_text(self) -> Option<Seq<char>> {
        match self {
            Json::Text(s) => Some(s@),
            _ => None,
        }
    }

    /// The string, if this is one.
    pub fn as_text(&self) -> (r: Option<&String>)
        ensures
            match r {
                Some(s) => self.spec_as_text() == Some(s@),
                None => self.spec_as_text() is None,
            },
    {
        match self {
            Json::Text(s) => Some(s),
            _ => None,
        }
    }

    /// The elements of an array.
    pub open spec fn spec_items(self) -> Option<Seq<Json>> {
        match self {
            Json::Array(items) => Some(items@),
            _ => None,
        }
    }

    /// The elements, if this is an array.
    pub fn items(&self) -> (r: Option<&Vec<Json>>)
        ensures
            match r {
                Some(items) => self.spec_items() == Some(items@),
                None => self.spec_items() is None,
            },
    {
        match self {
            Json::Array(items) => Some(items),
            _ => None,
        }
    }

    /// The fields of an object.
    pub open spec fn spec_fields(self) -> Option<Seq<(String, Json)>> {
        match self {
            Json::Object(fields) => Some(fields@),
            _ => None,
        }
    }

    /// The fields, if this is an object.
    pub fn fields(&self) -> (r: Option<&Vec<(String, Json)>>)
        ensures
            match r {
                Some(fields) => self.spec_fields() == Some(fields@),
                None => self.spec_fields() is None,
            },
    {
        match self {
            Json::Object(fields) => Some(fields),
            _ => None,
        }
    }
}

/// Looks a field up by its key.
pub fn find_field<'a>(fields: &'a Vec<(String, Json)>, name: &String) -> (r: Option<&'a Json>)
    ensures
        match r {
            Some(value) => field_of(fields@, name@) == Some(*value),
            None => field_of(fields@, name@) is None,
        },
{
    let mut i: usize = 0;
    assert(fields@.subrange(0, fields@.len() as int) =~= fields@);
    while i < fields.len()
        invariant
            i <= fields.len(),
            field_of(fields@, name@) == field_of(
                fields@.subrange(i as int, fields@.len() as int),
                name@,
            ),
        decreases fields.len() - i,
    {
        let ghost rest = fields@.subrange(i as int, fields@.len() as int);
        assert(rest[0] == fields@[i as int]);
        assert(rest.drop_first() =~= fields@.subrange(i + 1, fields@.len() as int));
        if fields[i].0 == *name {
            return Some(&fields[i].1);
        }
        i += 1;
    }
    None
}

} // verus!

//! JSON documents, read through `serde_json`.
//!
//! Parsing and the document tree are `serde_json`'s. This module says what
//! the crate relies on: a document is seen as a `Json`, and each operation on
//! a `serde_json::Value` is described by what it does to that.

use serde_json::Value;
use vstd::prelude::*;

verus! {

/// `serde_json::Value`, a JSON document in memory. Nothing of its inside is
/// known here but what `json_of` names.
#[verifier::external_type_specification]
#[verifier::external_body]
pub struct ExValue(serde_json::Value);

/// `serde_json::Error`, what the reader reports of a text that is no JSON
/// document. Nothing of its inside is known here.
#[verifier::external_type_specification]
#[verifier::external_body]
pub struct ExError(serde_json::Error);

/// What a JSON document holds.
pub enum Json {
    Null,
    Bool(bool),
    /// A number. The field is its value where it is an integer from 0 to
    /// `u64::MAX`, and `None` for every other number.
    Number(Option<u64>),
    Text(Seq<char>),
    Array(Seq<Json>),
    Object(Map<Seq<char>, Json>),
}

impl Json {
    /// What stands under `key`: the member of that name where `self` is an
    /// object that has one, and `Null` otherwise.
    pub open spec fn member(self, key: Seq<char>) -> Json {
        match self {
            Json::Object(m) => if m.contains_key(key) {
                m[key]
            } else {
                Json::Null
            },
            _ => Json::Null,
        }
    }

    /// The characters of a text; `None` for what is no text.
    pub open spec fn text(self) -> Option<Seq<char>> {
        match self {
            Json::Text(s) => Some(s),
            _ => None,
        }
    }

    /// The value of a number that is an integer from 0 to `u64::MAX`; `None`
    /// for every other document.
    pub open spec fn unsigned(self) -> Option<u64> {
        match self {
            Json::Number(n) => n,
            _ => None,
        }
    }

    /// The elements of an array; `None` for what is no array.
    pub open spec fn elements(self) -> Option<Seq<Json>> {
        match self {
            Json::Array(items) => Some(items),
            _ => None,
        }
    }
}

/// What the value `v` holds.
pub uninterp spec fn json_of(v: Value) -> Json;

/// The document that `serde_json::from_str` reads from `text`; `None` where
/// it reports an error.
pub uninterp spec fn parsed_text(text: Seq<char>) -> Option<Json>;

/// The document that `serde_json::from_slice` reads from `bytes`; `None`
/// where it reports an error.
pub uninterp spec fn parsed_bytes(bytes: Seq<u8>) -> Option<Json>;

/// What each of `items` holds.
pub open spec fn each_json_of(items: Seq<Value>) -> Seq<Json> {
    Seq::new(items.len(), |i: int| json_of(items[i]))
}

/// `serde_json::from_str` at `Value`. It reads one document from the whole of
/// `s`; the document it returns is a function of the text alone, and is
/// called `parsed_text(s@)` here.
#[verifier::external_body]
pub(crate) fn value_from_str(s: &str) -> (r: Result<Value, serde_json::Error>)
    ensures
        match r {
            Ok(v) => parsed_text(s@) == Some(json_of(v)),
            Err(_) => parsed_text(s@) is None,
        },
{
    serde_json::from_str::<Value>(s)
}

/// `serde_json::from_slice` at `Value`. It reads one document from the whole
/// of `bytes`; the document it returns is a function of the bytes alone, and
/// is called `parsed_bytes(bytes@)` here.
#[verifier::external_body]
pub(crate) fn value_from_slice(bytes: &[u8]) -> (r: Result<Value, serde_json::Error>)
    ensures
        match r {
            Ok(v) => parsed_bytes(bytes@) == Some(json_of(v)),
            Err(_) => parsed_bytes(bytes@) is None,
        },
{
    serde_json::from_slice::<Value>(bytes)
}

/// Indexing a `Value` by a string, `v[key]`. For an object that has a member
/// of that name it gives the member; for an object without one, and for
/// every value that is no object, it gives a null.
#[verifier::external_body]
pub(crate) fn value_member<'a>(v: &'a Value, key: &str) -> (r: &'a Value)
    ensures
        json_of(*r) == json_of(*v).member(key@),
{
    &v[key]
}

/// `Value::as_str`: the text of a string value, and `None` for a value of
/// another kind.
pub assume_specification<'a>[ Value::as_str ](v: &'a Value) -> (r: Option<&'a str>)
    ensures
        match r {
            Some(s) => json_of(*v).text() == Some(s@),
            None => json_of(*v).text() is None,
        },
;

/// `Value::as_u64`: the value of a number that is an integer from 0 to
/// `u64::MAX`, and `None` for every other value.
pub assume_specification[ Value::as_u64 ](v: &Value) -> (r: Option<u64>)
    ensures
        r == json_of(*v).unsigned(),
;

/// `Value::as_array`: the elements of an array value, in order, and `None`
/// for a value of another kind.
pub assume_specification<'a>[ Value::as_array ](v: &'a Value) -> (r: Option<&'a Vec<Value>>)
    ensures
        match r {
            Some(items) => json_of(*v).elements() == Some(each_json_of(items@)),
            None => json_of(*v).elements() is None,
        },
;

/// The `Display` text of a `serde_json::Error`. Nothing is claimed of it.
#[verifier::external_body]
pub(crate) fn error_text(e: &serde_json::Error) -> (r: String) {
    e.to_string()
}

} // verus!

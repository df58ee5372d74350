//! Trusted accessors for JSON documents, over `serde_json::Value`, tied to
//! a mathematical reading of the document.
//!
//! `model_of` names what a `Value` holds, as a `JsonModel`; `json_doc_of`
//! names what parsing a byte sequence yields (`Invalid` when the parse
//! fails, for whatever reason — malformed text or the parser's recursion
//! cap alike). Each accessor's contract says how its result reads off the
//! model, so verified decoders built on them can state exactly which
//! payloads they accept and what they return. Numbers are modeled by their
//! decimal text (the text `serde_json::Number`'s `Display` prints).

use vstd::prelude::*;

use crate::decimal::{all_digits, digits_val};

verus! {

/// A reading of a JSON value: the shapes a parsed document can take, plus
/// `Invalid` for byte sequences that do not parse at all.
pub enum JsonModel {
    Invalid,
    Null,
    Bool(bool),
    Number(Seq<u8>),
    Text(Seq<char>),
    Array(Seq<JsonModel>),
    Object(Map<Seq<char>, JsonModel>),
}

/// What parsing these bytes yields; `Invalid` exactly when the parse fails.
pub uninterp spec fn json_doc_of(bytes: Seq<u8>) -> JsonModel;

/// What a parsed value holds. Never `Invalid` for a value that exists.
pub uninterp spec fn model_of(v: serde_json::Value) -> JsonModel;

/// The object has this field.
pub open spec fn obj_has(m: JsonModel, key: Seq<char>) -> bool {
    match m {
        JsonModel::Object(o) => o.dom().contains(key),
        _ => false,
    }
}

/// The field's value (callers guard with `obj_has`).
pub open spec fn obj_get(m: JsonModel, key: Seq<char>) -> JsonModel {
    match m {
        JsonModel::Object(o) => o[key],
        _ => JsonModel::Invalid,
    }
}

/// The elements of an array value (empty for anything else).
pub open spec fn arr_of(m: JsonModel) -> Seq<JsonModel> {
    match m {
        JsonModel::Array(s) => s,
        _ => Seq::empty(),
    }
}

/// The text of a string value.
pub open spec fn text_of(m: JsonModel) -> Seq<char> {
    match m {
        JsonModel::Text(t) => t,
        _ => Seq::empty(),
    }
}

/// The decimal text of a number value.
pub open spec fn num_text_of(m: JsonModel) -> Seq<u8> {
    match m {
        JsonModel::Number(t) => t,
        _ => Seq::empty(),
    }
}

/// The unsigned-integer reading of a number value: defined exactly when
/// its decimal text is bare digits (floats print with a `.` or exponent).
pub open spec fn u64_reading(m: JsonModel) -> Option<int> {
    match m {
        JsonModel::Number(t) => if t.len() >= 1 && all_digits(t) {
            Some(digits_val(t))
        } else {
            None
        },
        _ => None,
    }
}

/// The signed-integer reading of a number value's decimal text, within
/// `i64` range.
pub open spec fn i64_reading(m: JsonModel) -> Option<int> {
    match m {
        JsonModel::Number(t) => {
            if t.len() >= 1 && all_digits(t) {
                if digits_val(t) <= i64::MAX {
                    Some(digits_val(t))
                } else {
                    None
                }
            } else if t.len() >= 2 && t[0] == 45 && all_digits(t.skip(1)) {
                if digits_val(t.skip(1)) <= i64::MAX + 1 {
                    Some(-digits_val(t.skip(1)))
                } else {
                    None
                }
            } else {
                None
            }
        },
        _ => None,
    }
}

/// `x` is the value of some field of the object `m`.
pub open spec fn value_in_object(m: JsonModel, x: JsonModel) -> bool {
    exists|k: Seq<char>| obj_has(m, k) && obj_get(m, k) == x
}

#[verifier::external_type_specification]
#[verifier::external_body]
pub struct ExValue(serde_json::Value);

/// Relies on `serde_json::from_slice::<Value>`: the parse depends on the
/// payload bytes alone; it succeeds exactly when the named reading is not
/// `Invalid`, and the parsed value holds that reading.
#[verifier::external_body]
pub fn json_parse(bytes: &[u8]) -> (r: Option<serde_json::Value>)
    ensures
        r is Some <==> !(json_doc_of(bytes@) is Invalid),
        r matches Some(v) ==> model_of(v) == json_doc_of(bytes@),
{
    serde_json::from_slice(bytes).ok()
}

/// Relies on `serde_json::Value::get` with a string index: the named field
/// of an object, present exactly when the object has it.
#[verifier::external_body]
pub fn json_get<'a>(v: &'a serde_json::Value, key: &str) -> (r: Option<&'a serde_json::Value>)
    ensures
        r is Some <==> obj_has(model_of(*v), key@),
        r matches Some(x) ==> model_of(*x) == obj_get(model_of(*v), key@),
{
    v.get(key)
}

/// Relies on `serde_json::Value::as_str`: the text of a JSON string,
/// exactly for string values.
#[verifier::external_body]
pub fn json_as_str(v: &serde_json::Value) -> (r: Option<String>)
    ensures
        r is Some <==> model_of(*v) is Text,
        r matches Some(s) ==> s@ == text_of(model_of(*v)),
{
    v.as_str().map(|s| s.to_string())
}

/// Relies on `serde_json::Number`'s `Display`: the decimal text of a JSON
/// number, exactly for number values.
#[verifier::external_body]
pub fn json_number_text(v: &serde_json::Value) -> (r: Option<Vec<u8>>)
    ensures
        r is Some <==> model_of(*v) is Number,
        r matches Some(t) ==> t@ == num_text_of(model_of(*v)),
{
    match v {
        serde_json::Value::Number(n) => Some(n.to_string().into_bytes()),
        _ => None,
    }
}

/// Relies on `serde_json::Value::as_u64`: `Some` exactly for unsigned
/// integer numbers (whose decimal text is bare digits), with that value.
#[verifier::external_body]
pub fn json_as_u64(v: &serde_json::Value) -> (r: Option<u64>)
    ensures
        r is Some <==> u64_reading(model_of(*v)) is Some,
        r matches Some(n) ==> u64_reading(model_of(*v)) == Some(n as int),
{
    v.as_u64()
}

/// Relies on `serde_json::Value::as_i64`: `Some` exactly for integer
/// numbers in `i64` range, with that value.
#[verifier::external_body]
pub fn json_as_i64(v: &serde_json::Value) -> (r: Option<i64>)
    ensures
        r is Some <==> i64_reading(model_of(*v)) is Some,
        r matches Some(n) ==> i64_reading(model_of(*v)) == Some(n as int),
{
    v.as_i64()
}

/// Relies on `serde_json::Value::as_bool`: the value of a JSON boolean,
/// exactly for booleans.
#[verifier::external_body]
pub fn json_as_bool(v: &serde_json::Value) -> (r: Option<bool>)
    ensures
        r is Some <==> model_of(*v) is Bool,
        r matches Some(b) ==> model_of(*v) == JsonModel::Bool(b),
{
    v.as_bool()
}

/// Relies on `serde_json::Value::as_array`: the elements of a JSON array,
/// exactly for arrays, in order.
#[verifier::external_body]
pub fn json_as_array<'a>(v: &'a serde_json::Value) -> (r: Option<&'a Vec<serde_json::Value>>)
    ensures
        r is Some <==> model_of(*v) is Array,
        r matches Some(a) ==> a@.len() == arr_of(model_of(*v)).len() && (forall|i: int|
            0 <= i < a@.len() ==> model_of(#[trigger] a@[i]) == arr_of(model_of(*v))[i]),
{
    v.as_array()
}

/// Relies on `serde_json::Map::values`: the field values of a JSON object
/// (in the map's deterministic key order), cloned; exactly for objects.
/// Every returned value is a field value, and every field value is
/// returned.
#[verifier::external_body]
pub fn json_object_values(v: &serde_json::Value) -> (r: Option<Vec<serde_json::Value>>)
    ensures
        r is Some <==> model_of(*v) is Object,
        r matches Some(vs) ==> (forall|i: int|
            0 <= i < vs@.len() ==> value_in_object(model_of(*v), model_of(#[trigger] vs@[i]))),
        r matches Some(vs) ==> (forall|k: Seq<char>|
            obj_has(model_of(*v), k) ==> exists|i: int|
                0 <= i < vs@.len() && model_of(#[trigger] vs@[i]) == obj_get(model_of(*v), k)),
{
    match v {
        serde_json::Value::Object(m) => Some(m.values().cloned().collect()),
        _ => None,
    }
}

} // verus!

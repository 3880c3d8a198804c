//! Trusted declarations for the JSON values that catalog responses arrive
//! in.  Each wrapper makes exactly one serde_json call.  A `Value` is
//! opaque to verification, so these wrappers promise nothing about what the
//! values hold; every decision on extracted data is made by verified code,
//! which takes the extracted plain values as arguments.

use vstd::prelude::*;

verus! {

#[verifier::external_type_specification]
#[verifier::external_body]
pub struct ExValue(serde_json::Value);

/// Relies on serde_json::from_str::<Value>: parses JSON text, returning
/// `Err` exactly on invalid JSON; mapped to `None` here.
#[verifier::external_body]
pub(crate) fn json_parse(s: &str) -> (r: Option<serde_json::Value>) {
    serde_json::from_str(s).ok()
}

/// Relies on serde_json::Value::get: member lookup, `None` when `v` is not
/// an object or lacks the key.
#[verifier::external_body]
pub(crate) fn json_get<'a>(v: &'a serde_json::Value, key: &str) -> (r: Option<
    &'a serde_json::Value,
>) {
    v.get(key)
}

/// Relies on serde_json::Value::as_array: the backing vector of an array
/// value, `None` for any other value.
#[verifier::external_body]
pub(crate) fn json_as_array<'a>(v: &'a serde_json::Value) -> (r: Option<
    &'a Vec<serde_json::Value>,
>) {
    v.as_array()
}

/// Relies on serde_json::Value::as_str: the text of a string value, `None`
/// for any other value.
#[verifier::external_body]
pub(crate) fn json_as_str<'a>(v: &'a serde_json::Value) -> (r: Option<&'a str>) {
    v.as_str()
}

/// Relies on serde_json::Value::as_u64: the value of an integer
/// representable in `u64`, `None` for any other value.
#[verifier::external_body]
pub(crate) fn json_as_u64(v: &serde_json::Value) -> (r: Option<u64>) {
    v.as_u64()
}

} // verus!

//! Reading single members of JSON objects, through serde_json.
use vstd::prelude::*;

verus! {

/// The value at `key` of the JSON object in `body`, when `body` is JSON, the
/// key is present and its value is an unsigned integer that fits in a `u64`.
pub uninterp spec fn json_u64_field(body: Seq<u8>, key: Seq<char>) -> Option<u64>;

/// The value at `key` of the JSON object in `body`, when `body` is JSON, the
/// key is present and its value is a string.
pub uninterp spec fn json_str_field(body: Seq<u8>, key: Seq<char>) -> Option<Seq<char>>;

/// Relies on serde_json::from_slice, Value::get and Value::as_u64: parse the
/// body as JSON and read one unsigned integer member of it.
#[verifier::external_body]
pub(crate) fn u64_field_of_json(body: &[u8], key: &str) -> (r: Option<u64>)
    ensures
        r == json_u64_field(body@, key@),
{
    let value: serde_json::Value = serde_json::from_slice(body).ok()?;
    value.get(key)?.as_u64()
}

/// Relies on serde_json::from_slice, Value::get and Value::as_str: parse the
/// body as JSON and read one string member of it.
#[verifier::external_body]
pub(crate) fn str_field_of_json(body: &[u8], key: &str) -> (r: Option<String>)
    ensures
        match r {
            Some(s) => json_str_field(body@, key@) == Some(s@),
            None => json_str_field(body@, key@) is None,
        },
{
    let value: serde_json::Value = serde_json::from_slice(body).ok()?;
    Some(value.get(key)?.as_str()?.to_string())
}

} // verus!

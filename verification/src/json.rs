//! What `serde_json` reads out of a request's bytes.
//!
//! Each reader parses the bytes as a JSON value and picks one member of the
//! top-level object, keeping it only when it has the expected JSON type.

use vstd::prelude::*;

verus! {

/// Whether `serde_json::from_slice::<serde_json::Value>` accepts `bytes`.
pub uninterp spec fn json_parses(bytes: Seq<u8>) -> bool;

/// The string member `key` of the JSON value that `bytes` parse to, when
/// the value is an object with such a member that is a JSON string.
pub uninterp spec fn json_text_member(bytes: Seq<u8>, key: Seq<char>) -> Option<Seq<char>>;

/// The member `key` of the JSON value that `bytes` parse to, when it is a
/// number that fits in a `u64`.
pub uninterp spec fn json_u64_member(bytes: Seq<u8>, key: Seq<char>) -> Option<u64>;

/// The member `key` of the JSON value that `bytes` parse to, when it is a
/// JSON boolean.
pub uninterp spec fn json_bool_member(bytes: Seq<u8>, key: Seq<char>) -> Option<bool>;

/// `serde_json::from_slice::<serde_json::Value>(payload).is_ok()`: whether
/// the bytes are one JSON value. The result is named by `json_parses`.
#[verifier::external_body]
pub(crate) fn parses_as_json(payload: &[u8]) -> (b: bool)
    ensures
        b == json_parses(payload@),
{
    serde_json::from_slice::<serde_json::Value>(payload).is_ok()
}

/// `serde_json::from_slice::<serde_json::Value>(payload)`, then
/// `Value::get(key)` and `Value::as_str`: the string member `key`. The
/// result is named by `json_text_member`; a member is found only in bytes
/// that parse.
#[verifier::external_body]
pub(crate) fn text_member(payload: &[u8], key: &str) -> (r: Option<String>)
    ensures
        match r {
            Some(s) => json_text_member(payload@, key@) == Some(s@),
            None => json_text_member(payload@, key@) is None,
        },
        r is Some ==> json_parses(payload@),
{
    let v = serde_json::from_slice::<serde_json::Value>(payload).ok()?;
    v.get(key).and_then(|x| x.as_str()).map(|s| s.to_string())
}

/// `serde_json::from_slice::<serde_json::Value>(payload)`, then
/// `Value::get(key)` and `Value::as_u64`: the member `key` as a `u64`. The
/// result is named by `json_u64_member`; a member is found only in bytes
/// that parse.
#[verifier::external_body]
pub(crate) fn u64_member(payload: &[u8], key: &str) -> (r: Option<u64>)
    ensures
        r == json_u64_member(payload@, key@),
        r is Some ==> json_parses(payload@),
{
    let v = serde_json::from_slice::<serde_json::Value>(payload).ok()?;
    v.get(key).and_then(|x| x.as_u64())
}

/// `serde_json::from_slice::<serde_json::Value>(payload)`, then
/// `Value::get(key)` and `Value::as_bool`: the member `key` as a boolean.
/// The result is named by `json_bool_member`; a member is found only in
/// bytes that parse.
#[verifier::external_body]
pub(crate) fn bool_member(payload: &[u8], key: &str) -> (r: Option<bool>)
    ensures
        r == json_bool_member(payload@, key@),
        r is Some ==> json_parses(payload@),
{
    let v = serde_json::from_slice::<serde_json::Value>(payload).ok()?;
    v.get(key).and_then(|x| x.as_bool())
}

} // verus!

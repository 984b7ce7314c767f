//! Values of JSON objects.
use vstd::prelude::*;

verus! {

/// Whether a text is JSON.
pub uninterp spec fn is_json(text: Seq<char>) -> bool;

/// The unsigned number under a key of a JSON object.
pub uninterp spec fn json_u64(text: Seq<char>, key: Seq<char>) -> Option<u64>;

/// The signed number under a key of a JSON object.
pub uninterp spec fn json_i64(text: Seq<char>, key: Seq<char>) -> Option<i64>;

/// The truth value under a key of a JSON object.
pub uninterp spec fn json_bool(text: Seq<char>, key: Seq<char>) -> Option<bool>;

/// The text under a key of a JSON object.
pub uninterp spec fn json_text(text: Seq<char>, key: Seq<char>) -> Option<Seq<char>>;

/// Calls `from_str` of serde_json for any value. Whether it succeeds is named
/// `is_json`; which texts are JSON is left unsaid.
#[verifier::external_body]
pub(crate) fn check_json(text: &str) -> (r: bool)
    ensures
        r == is_json(text@),
{
    serde_json::from_str::<serde_json::Value>(text).is_ok()
}

/// Calls `from_str`, the index by a key and `Value::as_u64` of serde_json. What they
/// give for a text and a key is named `json_u64`: none where the text is not JSON. Which
/// values count as such a number is left unsaid.
#[verifier::external_body]
pub(crate) fn read_u64(text: &str, key: &str) -> (r: Option<u64>)
    ensures
        r == json_u64(text@, key@),
        !is_json(text@) ==> r is None,
{
    match serde_json::from_str::<serde_json::Value>(text) {
        Ok(v) => v[key].as_u64(),
        Err(_) => None,
    }
}

/// As `read_u64`, with `Value::as_i64`. Its result is named `json_i64`.
#[verifier::external_body]
pub(crate) fn read_i64(text: &str, key: &str) -> (r: Option<i64>)
    ensures
        r == json_i64(text@, key@),
        !is_json(text@) ==> r is None,
{
    match serde_json::from_str::<serde_json::Value>(text) {
        Ok(v) => v[key].as_i64(),
        Err(_) => None,
    }
}

/// As `read_u64`, with `Value::as_bool`. Its result is named `json_bool`.
#[verifier::external_body]
pub(crate) fn read_bool(text: &str, key: &str) -> (r: Option<bool>)
    ensures
        r == json_bool(text@, key@),
        !is_json(text@) ==> r is None,
{
    match serde_json::from_str::<serde_json::Value>(text) {
        Ok(v) => v[key].as_bool(),
        Err(_) => None,
    }
}

/// As `read_u64`, with `Value::as_str`. Its result is named `json_text`.
#[verifier::external_body]
pub(crate) fn read_text(text: &str, key: &str) -> (r: Option<String>)
    ensures
        json_text(text@, key@) == (match r {
            Some(s) => Some(s@),
            None => None,
        }),
        !is_json(text@) ==> r is None,
{
    match serde_json::from_str::<serde_json::Value>(text) {
        Ok(v) => match v[key].as_str() {
            Some(s) => Some(s.to_string()),
            None => None,
        },
        Err(_) => None,
    }
}

} // verus!

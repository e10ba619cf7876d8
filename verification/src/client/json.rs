//! Single fields of JSON texts.

use vstd::prelude::*;

verus! {

/// The string under a key of a JSON object, if the text is an object with one.
pub uninterp spec fn json_text(raw: Seq<char>, key: Seq<char>) -> Option<Seq<char>>;

/// The unsigned number under a key of a JSON object, if there is one.
pub uninterp spec fn json_number(raw: Seq<char>, key: Seq<char>) -> Option<u64>;

/// The truth value under a key of a JSON object, if there is one.
pub uninterp spec fn json_bool(raw: Seq<char>, key: Seq<char>) -> Option<bool>;

/// The items of the array under a key of a JSON object, each as an unsigned
/// number where it is one, if there is an array.
pub uninterp spec fn json_numbers(raw: Seq<char>, key: Seq<char>) -> Option<Seq<Option<u64>>>;

/// `serde_json::from_str`, `Value::get` and `Value::as_str`: the string under a
/// key, which is determined by text and key.
#[verifier::external_body]
pub(crate) fn json_text_at(raw: &str, key: &str) -> (r: Option<String>)
    ensures
        match r {
            Some(s) => json_text(raw@, key@) == Some(s@),
            None => json_text(raw@, key@) is None,
        },
{
    let value: serde_json::Value = serde_json::from_str(raw).ok()?;
    value.get(key)?.as_str().map(str::to_string)
}

/// `serde_json::from_str`, `Value::get` and `Value::as_u64`: the unsigned number
/// under a key, which is determined by text and key.
#[verifier::external_body]
pub(crate) fn json_number_at(raw: &str, key: &str) -> (r: Option<u64>)
    ensures
        r == json_number(raw@, key@),
{
    let value: serde_json::Value = serde_json::from_str(raw).ok()?;
    value.get(key)?.as_u64()
}

/// `serde_json::from_str`, `Value::get` and `Value::as_bool`: the truth value
/// under a key, which is determined by text and key.
#[verifier::external_body]
pub(crate) fn json_bool_at(raw: &str, key: &str) -> (r: Option<bool>)
    ensures
        r == json_bool(raw@, key@),
{
    let value: serde_json::Value = serde_json::from_str(raw).ok()?;
    value.get(key)?.as_bool()
}

/// `serde_json::from_str`, `Value::get`, `Value::as_array` and `Value::as_u64`:
/// the items of the array under a key, which are determined by text and key.
#[verifier::external_body]
pub(crate) fn json_numbers_at(raw: &str, key: &str) -> (r: Option<Vec<Option<u64>>>)
    ensures
        match r {
            Some(v) => json_numbers(raw@, key@) == Some(v@),
            None => json_numbers(raw@, key@) is None,
        },
{
    let value: serde_json::Value = serde_json::from_str(raw).ok()?;
    let items = value.get(key)?.as_array()?;
    Some(items.iter().map(serde_json::Value::as_u64).collect())
}

} // verus!

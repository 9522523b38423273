//! The library's view of JSON replies. Parsing and navigation are done by
//! serde_json; each call is a deterministic function of its arguments, so its
//! result is given a name here and the fetchers' contracts are stated over
//! those names.

use vstd::prelude::*;

verus! {

#[verifier::external_type_specification]
#[verifier::external_body]
pub struct ExValue(serde_json::Value);

/// The JSON document that `text` denotes, or `None` when `text` is not valid
/// JSON; what serde_json::from_str returns for `text`.
pub uninterp spec fn json_doc(text: Seq<char>) -> Option<serde_json::Value>;

/// The member of object `v` under `key`, or `None` when `v` is no object or
/// has no such member; what serde_json::Value::get returns for a string key.
pub uninterp spec fn json_member(v: serde_json::Value, key: Seq<char>) -> Option<
    serde_json::Value,
>;

/// The i64 a JSON number `v` holds, or `None` when `v` is no such number;
/// what serde_json::Value::as_i64 returns.
pub uninterp spec fn json_int(v: serde_json::Value) -> Option<i64>;

/// The characters of a JSON string `v`, or `None` when `v` is no string;
/// what serde_json::Value::as_str returns.
pub uninterp spec fn json_str(v: serde_json::Value) -> Option<Seq<char>>;

/// Relies on serde_json::from_str::<Value>: the parsed document depends on
/// the text alone.
#[verifier::external_body]
pub fn parse_json(text: &str) -> (r: Option<serde_json::Value>)
    ensures
        r == json_doc(text@),
{
    serde_json::from_str::<serde_json::Value>(text).ok()
}

/// Relies on serde_json::Value::get with a string key: the member depends on
/// the value and the key alone.
#[verifier::external_body]
pub fn json_get<'a>(v: &'a serde_json::Value, key: &str) -> (r: Option<&'a serde_json::Value>)
    ensures
        match r {
            Some(m) => json_member(*v, key@) == Some(*m),
            None => json_member(*v, key@) is None,
        },
{
    v.get(key)
}

/// Relies on serde_json::Value::as_i64: the number depends on the value alone.
#[verifier::external_body]
pub fn json_as_i64(v: &serde_json::Value) -> (r: Option<i64>)
    ensures
        r == json_int(*v),
{
    v.as_i64()
}

/// Relies on serde_json::Value::as_str: the string depends on the value alone.
#[verifier::external_body]
pub fn json_as_str(v: &serde_json::Value) -> (r: Option<String>)
    ensures
        match r {
            Some(s) => json_str(*v) == Some(s@),
            None => json_str(*v) is None,
        },
{
    v.as_str().map(|s| s.to_string())
}

} // verus!

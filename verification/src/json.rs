//! Trusted boundary around `serde_json`: server responses arrive as JSON
//! text, and this library leaves parsing that grammar to the crate the rest
//! of the program already depends on.  Each item states, over a ghost model
//! of a parsed document, what the corresponding `serde_json` call returns;
//! everything that reads the model is verified.

use vstd::prelude::*;

verus! {

#[verifier::external_type_specification]
#[verifier::external_body]
pub struct ExJsonValue(serde_json::Value);

/// Ghost model of a parsed JSON node, as far as this library reads one.
/// Numbers that do not fit an unsigned 64-bit integer, and anything else
/// the response schemas never hold, fall under `Other`.
pub enum Json {
    Null,
    Bool(bool),
    UInt(u64),
    Str(Seq<char>),
    Arr(Seq<Json>),
    Obj(Map<Seq<char>, Json>),
    Other,
}

/// The model of one parsed `serde_json::Value`.
pub uninterp spec fn json_model(v: serde_json::Value) -> Json;

/// What parsing a JSON document yields: `None` on a syntax error, else the
/// model of the parsed value.  The result depends on the text alone.
pub uninterp spec fn json_doc(s: Seq<char>) -> Option<Json>;

/// Relies on `serde_json::from_str::<Value>`: parses one JSON document.
#[verifier::external_body]
pub fn parse_json(s: &str) -> (r: Option<serde_json::Value>)
    ensures
        r is Some <==> json_doc(s@) is Some,
        r matches Some(v) ==> Some(json_model(v)) == json_doc(s@),
{
    serde_json::from_str::<serde_json::Value>(s).ok()
}

/// Relies on `serde_json::Value::is_null`: true exactly on the null value.
#[verifier::external_body]
pub fn json_is_null(v: &serde_json::Value) -> (r: bool)
    ensures
        r <==> json_model(*v) is Null,
{
    v.is_null()
}

/// Relies on `serde_json::Value::get` with a string index: looks the key up
/// when the value is an object, and returns `None` otherwise.
#[verifier::external_body]
pub fn json_get<'a>(v: &'a serde_json::Value, key: &str) -> (r: Option<&'a serde_json::Value>)
    ensures
        json_model(*v) matches Json::Obj(m) ==> {
            &&& r is Some <==> m.contains_key(key@)
            &&& (r matches Some(u) ==> m.contains_key(key@) && json_model(*u) == m[key@])
        },
        !(json_model(*v) is Obj) ==> r is None,
{
    v.get(key)
}

/// Relies on `serde_json::Value::as_str`: `Some` exactly on a string value.
#[verifier::external_body]
pub fn json_as_str<'a>(v: &'a serde_json::Value) -> (r: Option<&'a str>)
    ensures
        r is Some <==> json_model(*v) is Str,
        r matches Some(s) ==> json_model(*v) == Json::Str(s@),
{
    v.as_str()
}

/// Relies on `serde_json::Value::as_u64`: `Some` exactly on a number that
/// is an unsigned 64-bit integer.
#[verifier::external_body]
pub fn json_as_u64(v: &serde_json::Value) -> (r: Option<u64>)
    ensures
        r is Some <==> json_model(*v) is UInt,
        r matches Some(n) ==> json_model(*v) == Json::UInt(n),
{
    v.as_u64()
}

/// Relies on `serde_json::Value::as_array`: `Some` exactly on an array,
/// handing out the elements in order.
#[verifier::external_body]
pub fn json_as_array<'a>(v: &'a serde_json::Value) -> (r: Option<&'a Vec<serde_json::Value>>)
    ensures
        r is Some <==> json_model(*v) is Arr,
        r matches Some(xs) ==> {
            &&& json_model(*v) matches Json::Arr(l)
            &&& xs@.len() == l.len()
            &&& forall|i: int| 0 <= i < l.len() ==> #[trigger] json_model(xs@[i]) == l[i]
        },
{
    v.as_array()
}

} // verus!

//! Trusted boundary around `serde_yaml`: the metadata block of a markdown
//! file is YAML, and this library leaves parsing that grammar to the crate
//! that the rest of the program already depends on.  Each item here states,
//! over a ghost model of a parsed document, what the corresponding
//! `serde_yaml` call returns; everything that reads the model is verified.

use vstd::prelude::*;

verus! {

#[verifier::external_type_specification]
#[verifier::external_body]
pub struct ExYamlValue(serde_yaml::Value);

/// Ghost model of a parsed YAML node, as far as this library reads one.
/// The accessors wrapped below read through a tag, so a tagged value is
/// modeled as the value under its tag; nodes of kinds the metadata schema
/// never holds (numbers, for one) fall under `Other`.
pub enum Yaml {
    Null,
    Bool(bool),
    Str(Seq<char>),
    List(Seq<Yaml>),
    Mapping(Map<Seq<char>, Yaml>),
    Other,
}

/// The model of one parsed `serde_yaml::Value`.
pub uninterp spec fn yaml_model(v: serde_yaml::Value) -> Yaml;

/// What parsing a YAML document yields: `None` on a syntax error, else the
/// model of the parsed value.  The result depends on the text alone.
pub uninterp spec fn yaml_doc(s: Seq<char>) -> Option<Yaml>;

/// Relies on `serde_yaml::from_str::<Value>`: parses one YAML document.
#[verifier::external_body]
pub fn parse_yaml(s: &str) -> (r: Option<serde_yaml::Value>)
    ensures
        r is Some <==> yaml_doc(s@) is Some,
        r matches Some(v) ==> Some(yaml_model(v)) == yaml_doc(s@),
{
    serde_yaml::from_str::<serde_yaml::Value>(s).ok()
}

/// Relies on `serde_yaml::Value::is_null`: true exactly on the null value.
#[verifier::external_body]
pub fn yaml_is_null(v: &serde_yaml::Value) -> (r: bool)
    ensures
        r <==> yaml_model(*v) is Null,
{
    v.is_null()
}

/// Relies on `serde_yaml::Value::is_mapping`: true exactly on a mapping.
#[verifier::external_body]
pub fn yaml_is_mapping(v: &serde_yaml::Value) -> (r: bool)
    ensures
        r <==> yaml_model(*v) is Mapping,
{
    v.is_mapping()
}

/// Relies on `serde_yaml::Value::get` with a string index: looks the key up
/// when the value is a mapping, and returns `None` otherwise.
#[verifier::external_body]
pub fn yaml_get<'a>(v: &'a serde_yaml::Value, key: &str) -> (r: Option<
    &'a serde_yaml::Value,
>)
    ensures
        yaml_model(*v) matches Yaml::Mapping(m) ==> {
            &&& r is Some <==> m.contains_key(key@)
            &&& (r matches Some(u) ==> m.contains_key(key@) && yaml_model(*u) == m[key@])
        },
        !(yaml_model(*v) is Mapping) ==> r is None,
{
    v.get(key)
}

/// Relies on `serde_yaml::Value::as_str`: `Some` exactly on a string value.
#[verifier::external_body]
pub fn yaml_as_str<'a>(v: &'a serde_yaml::Value) -> (r: Option<&'a str>)
    ensures
        r is Some <==> yaml_model(*v) is Str,
        r matches Some(s) ==> yaml_model(*v) == Yaml::Str(s@),
{
    v.as_str()
}

/// Relies on `serde_yaml::Value::as_bool`: `Some` exactly on a boolean value.
#[verifier::external_body]
pub fn yaml_as_bool(v: &serde_yaml::Value) -> (r: Option<bool>)
    ensures
        r is Some <==> yaml_model(*v) is Bool,
        r matches Some(b) ==> yaml_model(*v) == Yaml::Bool(b),
{
    v.as_bool()
}

/// Relies on `serde_yaml::Value::as_sequence`: `Some` exactly on a sequence,
/// handing out the elements in order.
#[verifier::external_body]
pub fn yaml_as_sequence<'a>(v: &'a serde_yaml::Value) -> (r: Option<
    &'a Vec<serde_yaml::Value>,
>)
    ensures
        r is Some <==> yaml_model(*v) is List,
        r matches Some(xs) ==> {
            &&& yaml_model(*v) matches Yaml::List(l)
            &&& xs@.len() == l.len()
            &&& forall|i: int| 0 <= i < l.len() ==> #[trigger] yaml_model(xs@[i]) == l[i]
        },
{
    v.as_sequence()
}

} // verus!

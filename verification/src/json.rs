//! JSON text of the small objects that the library writes, produced by
//! `serde_json`.

use vstd::prelude::*;

verus! {

/// The JSON text that `serde_json` writes for an object whose members are
/// the given keys, each with a string value.
pub uninterp spec fn json_string_object(fields: Seq<(Seq<char>, Seq<char>)>) -> Seq<char>;

/// The JSON text that `serde_json` writes for an object with a boolean
/// member and a member that is an array of strings.
pub uninterp spec fn json_flag_and_list_object(
    flag_key: Seq<char>,
    flag: bool,
    list_key: Seq<char>,
    items: Seq<Seq<char>>,
) -> Seq<char>;

/// The keys and values of `fields`, as characters.
pub open spec fn field_views(fields: Seq<(String, String)>) -> Seq<(Seq<char>, Seq<char>)> {
    fields.map_values(|f: (String, String)| (f.0@, f.1@))
}

/// The characters of each string.
pub open spec fn string_views(items: Seq<String>) -> Seq<Seq<char>> {
    items.map_values(|s: String| s@)
}

/// Builds a `serde_json::Value::Object` of string members and writes it
/// with `Value::to_string`.
///
/// Trusted: the result is the text that `serde_json` produces for these
/// members; it is named, not spelled out.
#[verifier::external_body]
pub(crate) fn write_string_object(fields: &Vec<(String, String)>) -> (r: String)
    ensures
        r@ == json_string_object(field_views(fields@)),
{
    let members: serde_json::Map<String, serde_json::Value> = fields.iter().map(
        |f| (f.0.clone(), serde_json::Value::String(f.1.clone())),
    ).collect();
    serde_json::Value::Object(members).to_string()
}

/// Builds a `serde_json::Value::Object` with a boolean member and an array
/// of strings, and writes it with `Value::to_string`.
///
/// Trusted: the result is the text that `serde_json` produces for these
/// members; it is named, not spelled out.
#[verifier::external_body]
pub(crate) fn write_flag_and_list_object(
    flag_key: &str,
    flag: bool,
    list_key: &str,
    items: &Vec<String>,
) -> (r: String)
    ensures
        r@ == json_flag_and_list_object(flag_key@, flag, list_key@, string_views(items@)),
{
    let mut members = serde_json::Map::new();
    members.insert(flag_key.to_string(), serde_json::Value::Bool(flag));
    let list = items.iter().map(|s| serde_json::Value::String(s.clone())).collect();
    members.insert(list_key.to_string(), serde_json::Value::Array(list));
    serde_json::Value::Object(members).to_string()
}

} // verus!

//! Trusted access to JSON documents through the `serde_json` crate.
//!
//! The document values never cross these wrappers: each wrapper parses the
//! text and extracts plain values along a key path handed in by the caller,
//! so the schema knowledge stays in verified code. What an extraction
//! returns is a function of the text and the keys alone, named by an
//! uninterpreted spec function.

use vstd::prelude::*;

verus! {

/// Whether `serde_json::from_str` accepts the text as a JSON document.
pub uninterp spec fn json_ok(text: Seq<char>) -> bool;

/// The message of the error `serde_json::from_str` reports on a text it
/// rejects.
pub uninterp spec fn json_err_msg(text: Seq<char>) -> Seq<char>;

/// The dependency entries of the object under the top-level key `section`:
/// for each member, its name and either its string value, or the string
/// under `version_key` when the member is itself an object. `None` when the
/// document has no object at `section`.
pub uninterp spec fn json_section_deps(
    text: Seq<char>,
    section: Seq<char>,
    version_key: Seq<char>,
) -> Option<Seq<(Seq<char>, Option<Seq<char>>)>>;

/// The string value under one top-level key, if the document parses and
/// holds one there.
pub uninterp spec fn json_str_at1(text: Seq<char>, k: Seq<char>) -> Option<Seq<char>>;

/// The string value under a two-key path, if the document parses and holds
/// one there.
pub uninterp spec fn json_str_at2(text: Seq<char>, k1: Seq<char>, k2: Seq<char>) -> Option<
    Seq<char>,
>;

/// Whether the document parses and has the top-level key `k`.
pub uninterp spec fn json_has_key(text: Seq<char>, k: Seq<char>) -> bool;

/// The string under `k2` of the first element of the array under the
/// top-level key `k1`.
pub uninterp spec fn json_arr_first_str(text: Seq<char>, k1: Seq<char>, k2: Seq<char>) -> Option<
    Seq<char>,
>;

/// Relies on `serde_json::from_str`, `Value::get`, `Value::as_str` and the
/// object map's iteration (sorted by key): the members of the object under
/// `section`, each value reduced to its string form — directly for a string
/// member, through `version_key` for an object member, absent otherwise.
/// The error on a malformed document is the parser's message.
#[verifier::external_body]
pub(crate) fn json_dep_entries(text: &str, section: &str, version_key: &str) -> (r: Result<
    Option<Vec<(String, Option<String>)>>,
    String,
>)
    ensures
        (r is Ok) == json_ok(text@),
        r matches Ok(o) ==> o.deep_view() == json_section_deps(text@, section@, version_key@),
        r matches Err(m) ==> m@ == json_err_msg(text@),
{
    let v: serde_json::Value = match serde_json::from_str(text) {
        Ok(v) => v,
        Err(e) => return Err(e.to_string()),
    };
    match v.get(section) {
        Some(serde_json::Value::Object(obj)) => Ok(Some(
            obj.iter().map(|(k, val)| (k.clone(), match val {
                serde_json::Value::String(s) => Some(s.clone()),
                serde_json::Value::Object(o) =>
                    o.get(version_key).and_then(|x| x.as_str()).map(|s| s.to_string()),
                _ => None,
            })).collect(),
        )),
        _ => Ok(None),
    }
}

/// Relies on `serde_json::from_str`, `Value::get` and `Value::as_str`: the
/// string directly under one top-level key.
#[verifier::external_body]
pub(crate) fn json_string_at1(text: &str, k: &str) -> (r: Option<String>)
    ensures
        r.deep_view() == json_str_at1(text@, k@),
{
    let v: serde_json::Value = match serde_json::from_str(text) {
        Ok(v) => v,
        Err(_) => return None,
    };
    v.get(k).and_then(|x| x.as_str()).map(|s| s.to_string())
}

/// Relies on `serde_json::from_str`, `Value::get` and `Value::as_str`: the
/// string under a two-key path.
#[verifier::external_body]
pub(crate) fn json_string_at2(text: &str, k1: &str, k2: &str) -> (r: Option<String>)
    ensures
        r.deep_view() == json_str_at2(text@, k1@, k2@),
{
    let v: serde_json::Value = match serde_json::from_str(text) {
        Ok(v) => v,
        Err(_) => return None,
    };
    v.get(k1).and_then(|x| x.get(k2)).and_then(|x| x.as_str()).map(|s| s.to_string())
}

/// Relies on `serde_json::from_str` and `Value::get`: whether the document
/// parses and has the top-level key.
#[verifier::external_body]
pub(crate) fn json_key_present(text: &str, k: &str) -> (r: bool)
    ensures
        r == json_has_key(text@, k@),
{
    match serde_json::from_str::<serde_json::Value>(text) {
        Ok(v) => v.get(k).is_some(),
        Err(_) => false,
    }
}

/// Relies on `serde_json::from_str`, `Value::get`, `Value::as_array` and
/// `Value::as_str`: the string under `k2` of the first element of the array
/// under `k1`.
#[verifier::external_body]
pub(crate) fn json_array_first_string(text: &str, k1: &str, k2: &str) -> (r: Option<String>)
    ensures
        r.deep_view() == json_arr_first_str(text@, k1@, k2@),
{
    let v: serde_json::Value = match serde_json::from_str(text) {
        Ok(v) => v,
        Err(_) => return None,
    };
    v.get(k1)
        .and_then(|x| x.as_array())
        .and_then(|a| a.first())
        .and_then(|e| e.get(k2))
        .and_then(|x| x.as_str())
        .map(|s| s.to_string())
}


/// Relies on `serde_json::from_str`: whether the text parses, with the
/// parser's message when it does not.
#[verifier::external_body]
pub(crate) fn json_validate(text: &str) -> (r: Result<(), String>)
    ensures
        (r is Ok) == json_ok(text@),
        r matches Err(m) ==> m@ == json_err_msg(text@),
{
    match serde_json::from_str::<serde_json::Value>(text) {
        Ok(_) => Ok(()),
        Err(e) => Err(e.to_string()),
    }
}

} // verus!

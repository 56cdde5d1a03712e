//! Trusted access to TOML documents through the `toml` crate.
//!
//! As with the JSON wrappers, the parsed document never crosses these
//! functions: each one parses the text and extracts plain values along a
//! key path handed in by the caller. Every extraction is a function of the
//! text and the keys alone, named by an uninterpreted spec function.

use vstd::prelude::*;

verus! {

/// Whether the `toml` crate accepts the text as a TOML document.
pub uninterp spec fn toml_ok(text: Seq<char>) -> bool;

/// The message of the error the `toml` crate reports on a text it rejects.
pub uninterp spec fn toml_err_msg(text: Seq<char>) -> Seq<char>;

/// The dependency entries of the table under one top-level key: for each
/// member, its name and either its string value, or the string under
/// `version_key` when the member is itself a table. `None` when the
/// document has no table there.
pub uninterp spec fn toml_deps1(text: Seq<char>, k1: Seq<char>, version_key: Seq<char>) -> Option<
    Seq<(Seq<char>, Option<Seq<char>>)>,
>;

/// As [`toml_deps1`], for the table under a two-key path.
pub uninterp spec fn toml_deps2(
    text: Seq<char>,
    k1: Seq<char>,
    k2: Seq<char>,
    version_key: Seq<char>,
) -> Option<Seq<(Seq<char>, Option<Seq<char>>)>>;

/// As [`toml_deps1`], for the table under a three-key path.
pub uninterp spec fn toml_deps3(
    text: Seq<char>,
    k1: Seq<char>,
    k2: Seq<char>,
    k3: Seq<char>,
    version_key: Seq<char>,
) -> Option<Seq<(Seq<char>, Option<Seq<char>>)>>;

/// The items of the array under a two-key path, each a string or absent
/// where the item is not a string. `None` when the document has no array
/// there.
pub uninterp spec fn toml_arr2(text: Seq<char>, k1: Seq<char>, k2: Seq<char>) -> Option<
    Seq<Option<Seq<char>>>,
>;

/// As [`toml_arr2`], for the array under a three-key path.
pub uninterp spec fn toml_arr3(text: Seq<char>, k1: Seq<char>, k2: Seq<char>, k3: Seq<char>) -> Option<
    Seq<Option<Seq<char>>>,
>;

/// The member names of the table under a two-key path, in the table's
/// (key-sorted) order. `None` when the document has no table there.
pub uninterp spec fn toml_keys2(text: Seq<char>, k1: Seq<char>, k2: Seq<char>) -> Option<
    Seq<Seq<char>>,
>;

/// Relies on `str::parse::<toml::Table>`, `Value::get`, `Value::as_table`,
/// `Value::as_str` and the table map's iteration (sorted by key): the
/// members of the table under `k1`, each value reduced to its string form —
/// directly for a string member, through `version_key` for a table member,
/// absent otherwise. The error on a malformed document is the parser's
/// message.
#[verifier::external_body]
pub(crate) fn toml_dep_table1(text: &str, k1: &str, version_key: &str) -> (r: Result<
    Option<Vec<(String, Option<String>)>>,
    String,
>)
    ensures
        (r is Ok) == toml_ok(text@),
        r matches Ok(o) ==> o.deep_view() == toml_deps1(text@, k1@, version_key@),
        r matches Err(m) ==> m@ == toml_err_msg(text@),
{
    let v: toml::Table = match text.parse() {
        Ok(v) => v,
        Err(e) => return Err(e.to_string()),
    };
    Ok(v.get(k1).and_then(|x| x.as_table()).map(|tbl| tbl.iter().map(|(k, val)| (k.clone(),
        match val {
            toml::Value::String(s) => Some(s.clone()),
            toml::Value::Table(tv) =>
                tv.get(version_key).and_then(|x| x.as_str()).map(|s| s.to_string()),
            _ => None,
        })).collect()))
}

/// As [`toml_dep_table1`], two keys deep.
#[verifier::external_body]
pub(crate) fn toml_dep_table2(text: &str, k1: &str, k2: &str, version_key: &str) -> (r: Result<
    Option<Vec<(String, Option<String>)>>,
    String,
>)
    ensures
        (r is Ok) == toml_ok(text@),
        r matches Ok(o) ==> o.deep_view() == toml_deps2(text@, k1@, k2@, version_key@),
        r matches Err(m) ==> m@ == toml_err_msg(text@),
{
    let v: toml::Table = match text.parse() {
        Ok(v) => v,
        Err(e) => return Err(e.to_string()),
    };
    Ok(v.get(k1).and_then(|x| x.get(k2)).and_then(|x| x.as_table()).map(|tbl| tbl.iter().map(
        |(k, val)| (k.clone(), match val {
            toml::Value::String(s) => Some(s.clone()),
            toml::Value::Table(tv) =>
                tv.get(version_key).and_then(|x| x.as_str()).map(|s| s.to_string()),
            _ => None,
        })).collect()))
}

/// As [`toml_dep_table1`], three keys deep.
#[verifier::external_body]
pub(crate) fn toml_dep_table3(text: &str, k1: &str, k2: &str, k3: &str, version_key: &str) -> (r: Result<
    Option<Vec<(String, Option<String>)>>,
    String,
>)
    ensures
        (r is Ok) == toml_ok(text@),
        r matches Ok(o) ==> o.deep_view() == toml_deps3(text@, k1@, k2@, k3@, version_key@),
        r matches Err(m) ==> m@ == toml_err_msg(text@),
{
    let v: toml::Table = match text.parse() {
        Ok(v) => v,
        Err(e) => return Err(e.to_string()),
    };
    Ok(v.get(k1).and_then(|x| x.get(k2)).and_then(|x| x.get(k3)).and_then(|x| x.as_table()).map(
        |tbl| tbl.iter().map(|(k, val)| (k.clone(), match val {
            toml::Value::String(s) => Some(s.clone()),
            toml::Value::Table(tv) =>
                tv.get(version_key).and_then(|x| x.as_str()).map(|s| s.to_string()),
            _ => None,
        })).collect()))
}

/// Relies on `str::parse::<toml::Table>`, `Value::get`, `Value::as_array`
/// and `Value::as_str`: the items of the array under `k1.k2`, item by item.
#[verifier::external_body]
pub(crate) fn toml_string_array2(text: &str, k1: &str, k2: &str) -> (r: Result<
    Option<Vec<Option<String>>>,
    String,
>)
    ensures
        (r is Ok) == toml_ok(text@),
        r matches Ok(o) ==> o.deep_view() == toml_arr2(text@, k1@, k2@),
        r matches Err(m) ==> m@ == toml_err_msg(text@),
{
    let v: toml::Table = match text.parse() {
        Ok(v) => v,
        Err(e) => return Err(e.to_string()),
    };
    Ok(v.get(k1).and_then(|x| x.get(k2)).and_then(|x| x.as_array()).map(
        |a| a.iter().map(|e| e.as_str().map(|s| s.to_string())).collect(),
    ))
}

/// As [`toml_string_array2`], three keys deep.
#[verifier::external_body]
pub(crate) fn toml_string_array3(text: &str, k1: &str, k2: &str, k3: &str) -> (r: Result<
    Option<Vec<Option<String>>>,
    String,
>)
    ensures
        (r is Ok) == toml_ok(text@),
        r matches Ok(o) ==> o.deep_view() == toml_arr3(text@, k1@, k2@, k3@),
        r matches Err(m) ==> m@ == toml_err_msg(text@),
{
    let v: toml::Table = match text.parse() {
        Ok(v) => v,
        Err(e) => return Err(e.to_string()),
    };
    Ok(v.get(k1).and_then(|x| x.get(k2)).and_then(|x| x.get(k3)).and_then(|x| x.as_array()).map(
        |a| a.iter().map(|e| e.as_str().map(|s| s.to_string())).collect(),
    ))
}

/// Relies on `str::parse::<toml::Table>`, `Value::get` and `Value::as_table`:
/// the member names of the table under `k1.k2`, in the table's order.
#[verifier::external_body]
pub(crate) fn toml_table_keys2(text: &str, k1: &str, k2: &str) -> (r: Result<Option<Vec<String>>, String>)
    ensures
        (r is Ok) == toml_ok(text@),
        r matches Ok(o) ==> o.deep_view() == toml_keys2(text@, k1@, k2@),
        r matches Err(m) ==> m@ == toml_err_msg(text@),
{
    let v: toml::Table = match text.parse() {
        Ok(v) => v,
        Err(e) => return Err(e.to_string()),
    };
    Ok(v.get(k1).and_then(|x| x.get(k2)).and_then(|x| x.as_table()).map(
        |tbl| tbl.iter().map(|(k, _)| k.clone()).collect(),
    ))
}

} // verus!

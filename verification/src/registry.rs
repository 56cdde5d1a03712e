//! Registry clients: the computable half of each latest-version lookup.
//!
//! For each package registry this module builds the request URL for a
//! package name and extracts the latest version (or a failure message)
//! from a response body. Issuing the HTTP request itself is the host's
//! business; it hands the response body to these functions.

use vstd::prelude::*;
use vstd::string::StringExecFns;
use crate::json_data::{
    json_arr_first_str,
    json_array_first_string,
    json_err_msg,
    json_has_key,
    json_key_present,
    json_ok,
    json_str_at1,
    json_str_at2,
    json_string_at1,
    json_string_at2,
    json_validate,
};
use crate::text::{
    chars_of,
    contains_sub,
    contains_sub_spec,
    ends_with_spec,
    find_char,
    find_char_spec,
    lines_spec,
    split_lines,
    string_of,
    string_of_range,
    sub_vec,
};
use crate::parsers::npm::or_empty;
use crate::watcher::ManifestKind;

verus! {

/// The string under a single-key path, or a fallback where absent.
pub open spec fn str_at1_or(body: Seq<char>, k: Seq<char>, fallback: Seq<char>) -> Seq<char> {
    match json_str_at1(body, k) {
        Some(s) => s,
        None => fallback,
    }
}

pub struct NpmClient;

/// What the npm registry's response body yields: the explicit error field
/// if one is present, a parse failure, or the version under
/// `dist-tags.latest`.
pub open spec fn npm_version_spec(body: Seq<char>) -> Result<Seq<char>, Seq<char>> {
    if json_str_at1(body, "error"@) is Some {
        Err(
            "npm error: "@ + json_str_at1(body, "error"@)->Some_0 + " - "@ + or_empty(
                json_str_at1(body, "reason"@),
            ),
        )
    } else if !json_ok(body) {
        Err("Failed to parse JSON: "@ + json_err_msg(body))
    } else {
        match json_str_at2(body, "dist-tags"@, "latest"@) {
            Some(v) => Ok(v),
            None => Err("No latest version found"@),
        }
    }
}

impl NpmClient {
    pub fn new() -> (r: Self) {
        NpmClient
    }

    /// The registry endpoint for a package.
    pub fn request_url(&self, package_name: &str) -> (r: String)
        ensures
            r@ == "https://registry.npmjs.org/"@ + package_name@,
    {
        let mut s = ("https://registry.npmjs.org/").to_owned();
        s.append(package_name);
        s
    }

    /// Extracts the latest version from a response body.
    pub fn version_from_body(&self, body: &str) -> (r: Result<String, String>)
        ensures
            r is Ok <==> npm_version_spec(body@) is Ok,
            r matches Ok(v) ==> npm_version_spec(body@) == Ok::<Seq<char>, Seq<char>>(v@),
            r matches Err(m) ==> npm_version_spec(body@) == Err::<Seq<char>, Seq<char>>(m@),
    {
        match json_string_at1(body, "error") {
            Some(e) => {
                let mut m = ("npm error: ").to_owned();
                m.append(e.as_str());
                m.append(" - ");
                match json_string_at1(body, "reason") {
                    Some(reason) => {
                        m.append(reason.as_str());
                    },
                    None => {
                        proof {
                            reveal_strlit("");
                            assert("npm error: "@ + e@ + " - "@ + or_empty(
                                json_str_at1(body@, "reason"@),
                            ) =~= m@);
                        }
                    },
                }
                return Err(m);
            },
            None => {},
        }
        match json_validate(body) {
            Err(e) => {
                let mut m = ("Failed to parse JSON: ").to_owned();
                m.append(e.as_str());
                return Err(m);
            },
            Ok(()) => {},
        }
        match json_string_at2(body, "dist-tags", "latest") {
            Some(v) => Ok(v),
            None => Err(("No latest version found").to_owned()),
        }
    }
}

impl Default for NpmClient {
    fn default() -> (r: Self) {
        NpmClient
    }
}

pub struct CratesClient;

/// What the crates.io response body yields: a parse failure, the first
/// error's detail if an `errors` field is present, or the version under
/// `crate.max_version`.
pub open spec fn crates_version_spec(body: Seq<char>) -> Result<Seq<char>, Seq<char>> {
    if !json_ok(body) {
        Err("Failed to parse JSON: "@ + json_err_msg(body))
    } else if json_has_key(body, "errors"@) {
        Err(
            "crates.io error: "@ + match json_arr_first_str(body, "errors"@, "detail"@) {
                Some(d) => d,
                None => "Unknown error"@,
            },
        )
    } else {
        match json_str_at2(body, "crate"@, "max_version"@) {
            Some(v) => Ok(v),
            None => Err("No max_version found"@),
        }
    }
}

impl CratesClient {
    pub fn new() -> (r: Self) {
        CratesClient
    }

    /// The registry endpoint for a crate.
    pub fn request_url(&self, crate_name: &str) -> (r: String)
        ensures
            r@ == "https://crates.io/api/v1/crates/"@ + crate_name@,
    {
        let mut s = ("https://crates.io/api/v1/crates/").to_owned();
        s.append(crate_name);
        s
    }

    /// Extracts the latest version from a response body.
    pub fn version_from_body(&self, body: &str) -> (r: Result<String, String>)
        ensures
            r is Ok <==> crates_version_spec(body@) is Ok,
            r matches Ok(v) ==> crates_version_spec(body@) == Ok::<Seq<char>, Seq<char>>(v@),
            r matches Err(m) ==> crates_version_spec(body@) == Err::<Seq<char>, Seq<char>>(m@),
    {
        match json_validate(body) {
            Err(e) => {
                let mut m = ("Failed to parse JSON: ").to_owned();
                m.append(e.as_str());
                return Err(m);
            },
            Ok(()) => {},
        }
        if json_key_present(body, "errors") {
            let mut m = ("crates.io error: ").to_owned();
            match json_array_first_string(body, "errors", "detail") {
                Some(d) => {
                    m.append(d.as_str());
                },
                None => {
                    m.append("Unknown error");
                },
            }
            return Err(m);
        }
        match json_string_at2(body, "crate", "max_version") {
            Some(v) => Ok(v),
            None => Err(("No max_version found").to_owned()),
        }
    }
}

impl Default for CratesClient {
    fn default() -> (r: Self) {
        CratesClient
    }
}

pub struct PyPIClient;

/// What the PyPI response body yields: a parse failure, the explicit error
/// field if present, or the version under `info.version`.
pub open spec fn pypi_version_spec(body: Seq<char>) -> Result<Seq<char>, Seq<char>> {
    if !json_ok(body) {
        Err("Failed to parse JSON: "@ + json_err_msg(body))
    } else if json_has_key(body, "error"@) {
        Err("PyPI error: "@ + str_at1_or(body, "error"@, "Unknown error"@))
    } else {
        match json_str_at2(body, "info"@, "version"@) {
            Some(v) => Ok(v),
            None => Err("No version found"@),
        }
    }
}

impl PyPIClient {
    pub fn new() -> (r: Self) {
        PyPIClient
    }

    /// The registry endpoint for a package.
    pub fn request_url(&self, package_name: &str) -> (r: String)
        ensures
            r@ == "https://pypi.org/pypi/"@ + package_name@ + "/json"@,
    {
        let mut s = ("https://pypi.org/pypi/").to_owned();
        s.append(package_name);
        s.append("/json");
        s
    }

    /// Extracts the latest version from a response body.
    pub fn version_from_body(&self, body: &str) -> (r: Result<String, String>)
        ensures
            r is Ok <==> pypi_version_spec(body@) is Ok,
            r matches Ok(v) ==> pypi_version_spec(body@) == Ok::<Seq<char>, Seq<char>>(v@),
            r matches Err(m) ==> pypi_version_spec(body@) == Err::<Seq<char>, Seq<char>>(m@),
    {
        match json_validate(body) {
            Err(e) => {
                let mut m = ("Failed to parse JSON: ").to_owned();
                m.append(e.as_str());
                return Err(m);
            },
            Ok(()) => {},
        }
        if json_key_present(body, "error") {
            let mut m = ("PyPI error: ").to_owned();
            match json_string_at1(body, "error") {
                Some(e) => {
                    m.append(e.as_str());
                },
                None => {
                    m.append("Unknown error");
                },
            }
            return Err(m);
        }
        match json_string_at2(body, "info", "version") {
            Some(v) => Ok(v),
            None => Err(("No version found").to_owned()),
        }
    }
}

impl Default for PyPIClient {
    fn default() -> (r: Self) {
        PyPIClient
    }
}

pub struct RubyGemsClient;

/// What the RubyGems response body yields: when the body mentions an
/// `"error"` field it is reported (or the parse failure encountered while
/// reading it); otherwise a parse failure or the version under `version`.
pub open spec fn rubygems_version_spec(body: Seq<char>) -> Result<Seq<char>, Seq<char>> {
    if contains_sub_spec(body, "\"error\""@) {
        if !json_ok(body) {
            Err("Failed to parse JSON: "@ + json_err_msg(body))
        } else {
            Err("RubyGems error: "@ + str_at1_or(body, "error"@, "Unknown error"@))
        }
    } else if !json_ok(body) {
        Err("Failed to parse JSON: "@ + json_err_msg(body))
    } else {
        match json_str_at1(body, "version"@) {
            Some(v) => Ok(v),
            None => Err("No version found"@),
        }
    }
}

impl RubyGemsClient {
    pub fn new() -> (r: Self) {
        RubyGemsClient
    }

    /// The registry endpoint for a gem.
    pub fn request_url(&self, gem_name: &str) -> (r: String)
        ensures
            r@ == "https://rubygems.org/api/v1/gems/"@ + gem_name@ + ".json"@,
    {
        let mut s = ("https://rubygems.org/api/v1/gems/").to_owned();
        s.append(gem_name);
        s.append(".json");
        s
    }

    /// Extracts the latest version from a response body.
    pub fn version_from_body(&self, body: &str) -> (r: Result<String, String>)
        ensures
            r is Ok <==> rubygems_version_spec(body@) is Ok,
            r matches Ok(v) ==> rubygems_version_spec(body@) == Ok::<Seq<char>, Seq<char>>(v@),
            r matches Err(m) ==> rubygems_version_spec(body@) == Err::<Seq<char>, Seq<char>>(m@),
    {
        let bv = chars_of(body);
        if contains_sub(&bv, "\"error\"") {
            match json_validate(body) {
                Err(e) => {
                    let mut m = ("Failed to parse JSON: ").to_owned();
                    m.append(e.as_str());
                    return Err(m);
                },
                Ok(()) => {},
            }
            let mut m = ("RubyGems error: ").to_owned();
            match json_string_at1(body, "error") {
                Some(e) => {
                    m.append(e.as_str());
                },
                None => {
                    m.append("Unknown error");
                },
            }
            return Err(m);
        }
        match json_validate(body) {
            Err(e) => {
                let mut m = ("Failed to parse JSON: ").to_owned();
                m.append(e.as_str());
                return Err(m);
            },
            Ok(()) => {},
        }
        match json_string_at1(body, "version") {
            Some(v) => Ok(v),
            None => Err(("No version found").to_owned()),
        }
    }
}

impl Default for RubyGemsClient {
    fn default() -> (r: Self) {
        RubyGemsClient
    }
}

pub struct PubDevClient;

/// What the pub.dev response body yields: a not-found report when the body
/// mentions an error, a parse failure, or the version under
/// `latest.version`.
pub open spec fn pubdev_version_spec(package_name: Seq<char>, body: Seq<char>) -> Result<
    Seq<char>,
    Seq<char>,
> {
    if contains_sub_spec(body, "\"error\""@) || contains_sub_spec(body, "Package not found"@) {
        Err("pub.dev error: Package '"@ + package_name + "' not found"@)
    } else if !json_ok(body) {
        Err("Failed to parse JSON: "@ + json_err_msg(body))
    } else {
        match json_str_at2(body, "latest"@, "version"@) {
            Some(v) => Ok(v),
            None => Err("No latest version found"@),
        }
    }
}

impl PubDevClient {
    pub fn new() -> (r: Self) {
        PubDevClient
    }

    /// The registry endpoint for a package.
    pub fn request_url(&self, package_name: &str) -> (r: String)
        ensures
            r@ == "https://pub.dev/api/packages/"@ + package_name@,
    {
        let mut s = ("https://pub.dev/api/packages/").to_owned();
        s.append(package_name);
        s
    }

    /// Extracts the latest version from a response body.
    pub fn version_from_body(&self, package_name: &str, body: &str) -> (r: Result<String, String>)
        ensures
            r is Ok <==> pubdev_version_spec(package_name@, body@) is Ok,
            r matches Ok(v) ==> pubdev_version_spec(package_name@, body@) == Ok::<
                Seq<char>,
                Seq<char>,
            >(v@),
            r matches Err(m) ==> pubdev_version_spec(package_name@, body@) == Err::<
                Seq<char>,
                Seq<char>,
            >(m@),
    {
        let bv = chars_of(body);
        if contains_sub(&bv, "\"error\"") || contains_sub(&bv, "Package not found") {
            let mut m = ("pub.dev error: Package '").to_owned();
            m.append(package_name);
            m.append("' not found");
            return Err(m);
        }
        match json_validate(body) {
            Err(e) => {
                let mut m = ("Failed to parse JSON: ").to_owned();
                m.append(e.as_str());
                return Err(m);
            },
            Ok(()) => {},
        }
        match json_string_at2(body, "latest", "version") {
            Some(v) => Ok(v),
            None => Err(("No latest version found").to_owned()),
        }
    }
}

impl Default for PubDevClient {
    fn default() -> (r: Self) {
        PubDevClient
    }
}

pub struct GoClient;

/// A trailing `.mod` suffix stripped, repeatedly, as the Go proxy's
/// version list sometimes carries it.
pub open spec fn strip_mod_suffix(s: Seq<char>) -> Seq<char>
    decreases s.len(),
{
    if ends_with_spec(s, ".mod"@) && ".mod"@.len() > 0 {
        strip_mod_suffix(s.take(s.len() - ".mod"@.len()))
    } else {
        s
    }
}

/// The module name up to a `@` version suffix, if one is present.
pub open spec fn go_clean_name(name: Seq<char>) -> Seq<char> {
    name.take(find_char_spec(name, '@', 0))
}

/// What the Go proxy's version-list body yields: the last line, with any
/// `.mod` suffix stripped; an empty list is a failure.
pub open spec fn go_version_spec(body: Seq<char>) -> Result<Seq<char>, Seq<char>> {
    let ls = lines_spec(body);
    if ls.len() == 0 {
        Err("No versions found for module"@)
    } else {
        Ok(strip_mod_suffix(ls.last()))
    }
}

impl GoClient {
    pub fn new() -> (r: Self) {
        GoClient
    }

    /// The proxy endpoint for a module's version list; a `@` version
    /// suffix on the module name is dropped first.
    pub fn request_url(&self, module_name: &str) -> (r: String)
        ensures
            r@ == "https://proxy.golang.org/"@ + go_clean_name(module_name@) + "/@v/list"@,
    {
        let nv = chars_of(module_name);
        let cut = find_char(&nv, '@', 0);
        let clean = string_of_range(&nv, 0, cut);
        proof {
            assert(nv@.subrange(0, cut as int) =~= nv@.take(cut as int));
        }
        let mut s = ("https://proxy.golang.org/").to_owned();
        s.append(clean.as_str());
        s.append("/@v/list");
        s
    }

    /// Extracts the latest version from a version-list body.
    pub fn version_from_body(&self, body: &str) -> (r: Result<String, String>)
        ensures
            r is Ok <==> go_version_spec(body@) is Ok,
            r matches Ok(v) ==> go_version_spec(body@) == Ok::<Seq<char>, Seq<char>>(v@),
            r matches Err(m) ==> go_version_spec(body@) == Err::<Seq<char>, Seq<char>>(m@),
    {
        let bv = chars_of(body);
        let ls = split_lines(&bv);
        if ls.len() == 0 {
            return Err(("No versions found for module").to_owned());
        }
        let last = &ls[ls.len() - 1];
        proof {
            assert(ls.deep_view().len() == ls@.len());
            assert(last@ =~= ls.deep_view()[ls@.len() - 1]);
            assert(last@ == lines_spec(body@).last());
        }
        let mut line = sub_vec(last, 0, last.len());
        proof {
            assert(line@ =~= last@);
            reveal_strlit(".mod");
        }
        while crate::text::ends_with(&line, ".mod")
            invariant
                strip_mod_suffix(lines_spec(body@).last()) == strip_mod_suffix(line@),
            decreases line@.len(),
        {
            proof {
                reveal_strlit(".mod");
            }
            let n = line.len();
            let shorter = sub_vec(&line, 0, n - 4);
            proof {
                assert(shorter@ =~= line@.take(line@.len() - ".mod"@.len()));
            }
            line = shorter;
        }
        proof {
            reveal_strlit(".mod");
            assert(strip_mod_suffix(line@) == line@);
        }
        Ok(string_of(&line))
    }
}

impl Default for GoClient {
    fn default() -> (r: Self) {
        GoClient
    }
}


/// The lookup endpoint for a package of the given ecosystem.
pub open spec fn lookup_url_spec(kind: ManifestKind, name: Seq<char>) -> Seq<char> {
    match kind {
        ManifestKind::Npm => "https://registry.npmjs.org/"@ + name,
        ManifestKind::Cargo => "https://crates.io/api/v1/crates/"@ + name,
        ManifestKind::PyProject => "https://pypi.org/pypi/"@ + name + "/json"@,
        ManifestKind::Gemfile => "https://rubygems.org/api/v1/gems/"@ + name + ".json"@,
        ManifestKind::Pubspec => "https://pub.dev/api/packages/"@ + name,
        ManifestKind::Go => "https://proxy.golang.org/"@ + go_clean_name(name) + "/@v/list"@,
    }
}

/// The request URL of the ecosystem's own registry for a package.
pub fn lookup_url(kind: ManifestKind, package_name: &str) -> (r: String)
    ensures
        r@ == lookup_url_spec(kind, package_name@),
{
    match kind {
        ManifestKind::Npm => NpmClient::new().request_url(package_name),
        ManifestKind::Cargo => CratesClient::new().request_url(package_name),
        ManifestKind::PyProject => PyPIClient::new().request_url(package_name),
        ManifestKind::Gemfile => RubyGemsClient::new().request_url(package_name),
        ManifestKind::Pubspec => PubDevClient::new().request_url(package_name),
        ManifestKind::Go => GoClient::new().request_url(package_name),
    }
}

/// What a response body of the ecosystem's registry yields for a package.
pub open spec fn lookup_version_spec(kind: ManifestKind, name: Seq<char>, body: Seq<char>) -> Result<
    Seq<char>,
    Seq<char>,
> {
    match kind {
        ManifestKind::Npm => npm_version_spec(body),
        ManifestKind::Cargo => crates_version_spec(body),
        ManifestKind::PyProject => pypi_version_spec(body),
        ManifestKind::Gemfile => rubygems_version_spec(body),
        ManifestKind::Pubspec => pubdev_version_spec(name, body),
        ManifestKind::Go => go_version_spec(body),
    }
}

/// Extracts the latest version from a response body with the ecosystem's
/// own client.
pub fn version_from_lookup(kind: ManifestKind, package_name: &str, body: &str) -> (r: Result<
    String,
    String,
>)
    ensures
        r is Ok <==> lookup_version_spec(kind, package_name@, body@) is Ok,
        r matches Ok(v) ==> lookup_version_spec(kind, package_name@, body@) == Ok::<
            Seq<char>,
            Seq<char>,
        >(v@),
        r matches Err(m) ==> lookup_version_spec(kind, package_name@, body@) == Err::<
            Seq<char>,
            Seq<char>,
        >(m@),
{
    match kind {
        ManifestKind::Npm => NpmClient::new().version_from_body(body),
        ManifestKind::Cargo => CratesClient::new().version_from_body(body),
        ManifestKind::PyProject => PyPIClient::new().version_from_body(body),
        ManifestKind::Gemfile => RubyGemsClient::new().version_from_body(body),
        ManifestKind::Pubspec => PubDevClient::new().version_from_body(package_name, body),
        ManifestKind::Go => GoClient::new().version_from_body(body),
    }
}

} // verus!

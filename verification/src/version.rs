//! Semantic-version comparison between a manifest's version specifier and
//! the latest published version of a package.
//!
//! A specifier is translated into a requirement: `^X.Y.Z` pins the major
//! version, `~X.Y.Z` pins major and minor, a bare `X.Y.Z` demands exact
//! equality, a specifier starting with `>`, `<` or `=` is handed to the
//! `semver` crate's range grammar, and anything else matches every
//! (non-pre-release) version.

use vstd::prelude::*;
use crate::text::{chars_of, trimmed, trim_spec};

verus! {

/// The numeric components of a parsed version, and whether a pre-release
/// segment is present.
#[derive(Debug, Clone, Copy, PartialEq, Eq, Structural)]
pub struct VersionParts {
    pub major: u64,
    pub minor: u64,
    pub patch: u64,
    pub has_pre: bool,
}

/// What `semver::Version::parse` yields on a given text: the numeric
/// components and pre-release presence, or nothing when the text is not a
/// strict `major.minor.patch[-pre][+build]` version.
pub uninterp spec fn semver_parse(s: Seq<char>) -> Option<VersionParts>;

/// The message of the error that `semver::Version::parse` reports on a text
/// it rejects.
pub uninterp spec fn semver_err_msg(s: Seq<char>) -> Seq<char>;

/// What the `semver` crate's comparator-range grammar says about a range
/// text applied to a version text: `None` when the range text does not
/// parse, otherwise whether the version satisfies the range.
pub uninterp spec fn range_eval(range: Seq<char>, version: Seq<char>) -> Option<bool>;

/// Relies on `semver::Version::parse`: strict `major.minor.patch[-pre][+build]`
/// parsing. Hands back the numeric components and whether a pre-release
/// segment is present; on failure, the parse error's message.
#[verifier::external_body]
fn parse_version(s: &str) -> (r: Result<VersionParts, String>)
    ensures
        r is Ok <==> semver_parse(s@) is Some,
        r matches Ok(p) ==> semver_parse(s@) == Some(p),
        r matches Err(m) ==> m@ == semver_err_msg(s@),
{
    match semver::Version::parse(s) {
        Ok(v) => Ok(
            VersionParts {
                major: v.major,
                minor: v.minor,
                patch: v.patch,
                has_pre: !v.pre.is_empty(),
            },
        ),
        Err(e) => Err(e.to_string()),
    }
}

/// Relies on `semver::VersionReq::parse` and `VersionReq::matches`: evaluates
/// a comparator-range text against a version text. `None` when the range text
/// does not parse; the result depends on the two texts alone.
#[verifier::external_body]
fn range_matches(range: &str, version: &str) -> (r: Option<bool>)
    ensures
        semver_parse(version@) is Some ==> r == range_eval(range@, version@),
{
    let req = match semver::VersionReq::parse(range) {
        Ok(req) => req,
        Err(_) => return None,
    };
    match semver::Version::parse(version) {
        Ok(v) => Some(req.matches(&v)),
        Err(_) => None,
    }
}

/// The magnitude of the change between a specifier's base version and the
/// latest published version.
#[derive(Debug, Clone, Copy, PartialEq, Eq, Structural)]
pub enum VersionDiff {
    Major,
    Minor,
    Patch,
}

/// Specification-level value of a comparison result.
pub enum ComparisonSpec {
    UpToDate { current: Seq<char>, latest: Seq<char> },
    Outdated { current: Seq<char>, latest: Seq<char>, diff: VersionDiff },
    Failure { message: Seq<char> },
}

/// Outcome of comparing a version specifier against a latest version.
#[derive(Debug, Clone)]
pub enum VersionComparison {
    UpToDate { current: String, latest: String },
    Outdated { current: String, latest: String, diff: VersionDiff },
    Error(String),
}

impl View for VersionComparison {
    type V = ComparisonSpec;

    open spec fn view(&self) -> ComparisonSpec {
        match self {
            VersionComparison::UpToDate { current, latest } => ComparisonSpec::UpToDate {
                current: current@,
                latest: latest@,
            },
            VersionComparison::Outdated { current, latest, diff } => ComparisonSpec::Outdated {
                current: current@,
                latest: latest@,
                diff: *diff,
            },
            VersionComparison::Error(message) => ComparisonSpec::Failure { message: message@ },
        }
    }
}

/// Whether a trimmed specifier admits the parsed latest version `l`, whose
/// source text is `latest_text`.
///
/// The `semver` crate's comparators without a pre-release segment never admit
/// a pre-release version, so every requirement derived here demands
/// `!l.has_pre`; the bounds follow the ranges the specifier translates to.
pub open spec fn admits_spec(t: Seq<char>, latest_text: Seq<char>, l: VersionParts) -> bool {
    if t.len() > 0 && t[0] == '^' && semver_parse(trim_spec(t.skip(1))) is Some {
        let b = semver_parse(trim_spec(t.skip(1)))->Some_0;
        // >=X.Y.Z, <(X+1).0.0
        !l.has_pre && l.major == b.major && (l.minor > b.minor || (l.minor == b.minor && l.patch
            >= b.patch))
    } else if t.len() > 0 && t[0] == '~' && semver_parse(trim_spec(t.skip(1))) is Some {
        let b = semver_parse(trim_spec(t.skip(1)))->Some_0;
        // >=X.Y.Z, <X.(Y+1).0
        !l.has_pre && l.major == b.major && l.minor == b.minor && l.patch >= b.patch
    } else if t.len() > 0 && (t[0] == '>' || t[0] == '<' || t[0] == '=') && range_eval(
        t,
        latest_text,
    ) is Some {
        range_eval(t, latest_text)->Some_0
    } else if semver_parse(t) is Some {
        let b = semver_parse(t)->Some_0;
        // =X.Y.Z
        !l.has_pre && l.major == b.major && l.minor == b.minor && l.patch == b.patch
    } else {
        // wildcard requirement
        !l.has_pre
    }
}

/// The base version of a specifier: one leading requirement operator
/// stripped, the remainder trimmed and parsed as a strict version.
pub open spec fn base_version_spec(s: Seq<char>) -> Option<VersionParts> {
    let t = trim_spec(s);
    if t.len() > 0 && (t[0] == '^' || t[0] == '~' || t[0] == '>' || t[0] == '<' || t[0] == '=') {
        semver_parse(trim_spec(t.skip(1)))
    } else {
        semver_parse(t)
    }
}

/// Diff classification between a specifier's base version and the latest:
/// differing majors dominate, then minors, and everything else (or an
/// unparseable base) counts as a patch-level difference.
pub open spec fn diff_spec(base: Option<VersionParts>, l: VersionParts) -> VersionDiff {
    match base {
        Some(b) => if l.major != b.major {
            VersionDiff::Major
        } else if l.minor != b.minor {
            VersionDiff::Minor
        } else {
            VersionDiff::Patch
        },
        None => VersionDiff::Patch,
    }
}

/// Full comparison outcome for a specifier and a latest-version text.
pub open spec fn compare_spec(cur: Seq<char>, latest_text: Seq<char>) -> ComparisonSpec {
    match semver_parse(latest_text) {
        None => ComparisonSpec::Failure { message: semver_err_msg(latest_text) },
        Some(l) => if admits_spec(trim_spec(cur), latest_text, l) {
            ComparisonSpec::UpToDate { current: cur, latest: latest_text }
        } else {
            ComparisonSpec::Outdated {
                current: cur,
                latest: latest_text,
                diff: diff_spec(base_version_spec(cur), l),
            }
        },
    }
}

/// The characters of `v` after the first, whitespace-trimmed.
fn tail_trimmed(v: &Vec<char>) -> (r: Vec<char>)
    requires
        v@.len() >= 1,
    ensures
        r@ == trim_spec(v@.skip(1)),
{
    let mut rest: Vec<char> = Vec::new();
    let mut i: usize = 1;
    while i < v.len()
        invariant
            1 <= i <= v@.len(),
            rest@ == v@.subrange(1, i as int),
        decreases v@.len() - i,
    {
        rest.push(v[i]);
        proof {
            assert(v@.subrange(1, i + 1 as int) =~= v@.subrange(1, i as int).push(v@[i as int]));
        }
        i = i + 1;
    }
    proof {
        assert(rest@ =~= v@.skip(1));
    }
    trimmed(&rest)
}

pub struct VersionComparator {}

impl VersionComparator {
    pub fn new() -> (r: Self) {
        VersionComparator {  }
    }

    /// Compares a version specifier with the latest available version and
    /// classifies the outcome.
    pub fn compare(&self, current_spec: &str, latest_version: &str) -> (r: VersionComparison)
        ensures
            r@ == compare_spec(current_spec@, latest_version@),
    {
        let latest = match parse_version(latest_version) {
            Err(m) => {
                return VersionComparison::Error(m);
            },
            Ok(l) => l,
        };
        let cv = chars_of(current_spec);
        let tv = trimmed(&cv);
        let sat = Self::admits(&tv, latest_version, latest);
        if sat {
            VersionComparison::UpToDate {
                current: current_spec.to_owned(),
                latest: latest_version.to_owned(),
            }
        } else {
            let diff = Self::version_diff(&tv, latest);
            VersionComparison::Outdated {
                current: current_spec.to_owned(),
                latest: latest_version.to_owned(),
                diff,
            }
        }
    }

    /// Whether the trimmed specifier `tv` admits the latest version.
    fn admits(tv: &Vec<char>, latest_version: &str, l: VersionParts) -> (r: bool)
        requires
            semver_parse(latest_version@) == Some(l),
        ensures
            r == admits_spec(tv@, latest_version@, l),
    {
        if tv.len() > 0 && tv[0] == '^' {
            let rest = tail_trimmed(tv);
            let rest_s = crate::text::string_of(&rest);
            match parse_version(rest_s.as_str()) {
                Ok(b) => {
                    return !l.has_pre && l.major == b.major && (l.minor > b.minor || (l.minor
                        == b.minor && l.patch >= b.patch));
                },
                Err(_) => {},
            }
        }
        if tv.len() > 0 && tv[0] == '~' {
            let rest = tail_trimmed(tv);
            let rest_s = crate::text::string_of(&rest);
            match parse_version(rest_s.as_str()) {
                Ok(b) => {
                    return !l.has_pre && l.major == b.major && l.minor == b.minor && l.patch
                        >= b.patch;
                },
                Err(_) => {},
            }
        }
        if tv.len() > 0 && (tv[0] == '>' || tv[0] == '<' || tv[0] == '=') {
            let t_s = crate::text::string_of(tv);
            match range_matches(t_s.as_str(), latest_version) {
                Some(b) => {
                    return b;
                },
                None => {},
            }
        }
        let t_s = crate::text::string_of(tv);
        match parse_version(t_s.as_str()) {
            Ok(b) => !l.has_pre && l.major == b.major && l.minor == b.minor && l.patch == b.patch,
            Err(_) => !l.has_pre,
        }
    }

    /// Diff classification for a trimmed specifier against the latest version.
    fn version_diff(tv: &Vec<char>, l: VersionParts) -> (r: VersionDiff)
        ensures
            forall|s: Seq<char>|
                trim_spec(s) == tv@ ==> r == diff_spec(base_version_spec(s), l),
    {
        let base = Self::extract_base(tv);
        match base {
            Some(b) => {
                if l.major != b.major {
                    VersionDiff::Major
                } else if l.minor != b.minor {
                    VersionDiff::Minor
                } else {
                    VersionDiff::Patch
                }
            },
            None => VersionDiff::Patch,
        }
    }

    /// The parsed base version of a trimmed specifier.
    fn extract_base(tv: &Vec<char>) -> (r: Option<VersionParts>)
        ensures
            forall|s: Seq<char>| trim_spec(s) == tv@ ==> r == base_version_spec(s),
    {
        let stripped: Vec<char>;
        if tv.len() > 0 && (tv[0] == '^' || tv[0] == '~' || tv[0] == '>' || tv[0] == '<' || tv[0]
            == '=') {
            stripped = tail_trimmed(tv);
        } else {
            let c = tv.clone();
            stripped = c;
        }
        let s = crate::text::string_of(&stripped);
        match parse_version(s.as_str()) {
            Ok(b) => Some(b),
            Err(_) => None,
        }
    }
}

impl Default for VersionComparator {
    fn default() -> (r: Self) {
        VersionComparator {  }
    }
}

impl VersionComparison {
    /// The annotation text for this comparison.
    pub fn display_text(&self) -> (r: String)
        ensures
            r@ == display_text_spec(self@),
    {
        match self {
            VersionComparison::UpToDate { current, latest } => {
                let mut s = current.clone();
                s.append(" → ");
                s.append(latest.as_str());
                s
            },
            VersionComparison::Outdated { current, latest, diff } => {
                let mut s = current.clone();
                s.append(" → ");
                s.append(latest.as_str());
                s.append(" (");
                s.append(diff.label());
                s.append(")");
                s
            },
            VersionComparison::Error(message) => {
                let mut s = String::new();
                s.append("Error: ");
                s.append(message.as_str());
                s
            },
        }
    }
}

/// The annotation text a comparison renders to.
pub open spec fn display_text_spec(c: ComparisonSpec) -> Seq<char> {
    match c {
        ComparisonSpec::UpToDate { current, latest } => current + " → "@ + latest,
        ComparisonSpec::Outdated { current, latest, diff } => current + " → "@ + latest + " ("@
            + label_spec(diff) + ")"@,
        ComparisonSpec::Failure { message } => "Error: "@ + message,
    }
}

pub open spec fn label_spec(d: VersionDiff) -> Seq<char> {
    match d {
        VersionDiff::Major => "major"@,
        VersionDiff::Minor => "minor"@,
        VersionDiff::Patch => "patch"@,
    }
}

impl VersionDiff {
    /// Short lower-case label for the difference magnitude.
    pub fn label(&self) -> (r: &'static str)
        ensures
            r@ == label_spec(*self),
    {
        match self {
            VersionDiff::Major => "major",
            VersionDiff::Minor => "minor",
            VersionDiff::Patch => "patch",
        }
    }
}

/// A caret specifier `^X.Y.Z` admits exactly the non-pre-release versions
/// with the same major and at least the (minor, patch) pair: such a latest
/// version is reported up to date, and a greater major is reported outdated
/// with a major diff.
pub proof fn lemma_caret_comparison(
    cur: Seq<char>,
    latest_text: Seq<char>,
    b: VersionParts,
    l: VersionParts,
)
    requires
        trim_spec(cur).len() > 0,
        trim_spec(cur)[0] == '^',
        semver_parse(trim_spec(trim_spec(cur).skip(1))) == Some(b),
        semver_parse(latest_text) == Some(l),
        !l.has_pre,
    ensures
        (l.major == b.major && (l.minor > b.minor || (l.minor == b.minor && l.patch >= b.patch)))
            ==> compare_spec(cur, latest_text) == (ComparisonSpec::UpToDate {
            current: cur,
            latest: latest_text,
        }),
        l.major > b.major ==> compare_spec(cur, latest_text) == (ComparisonSpec::Outdated {
            current: cur,
            latest: latest_text,
            diff: VersionDiff::Major,
        }),
{
}

/// A tilde specifier `~X.Y.Z` admits exactly the non-pre-release versions
/// with the same major and minor and at least the patch: the comparison is
/// up to date for those versions and for no others.
pub proof fn lemma_tilde_comparison(
    cur: Seq<char>,
    latest_text: Seq<char>,
    b: VersionParts,
    l: VersionParts,
)
    requires
        trim_spec(cur).len() > 0,
        trim_spec(cur)[0] == '~',
        semver_parse(trim_spec(trim_spec(cur).skip(1))) == Some(b),
        semver_parse(latest_text) == Some(l),
        !l.has_pre,
    ensures
        compare_spec(cur, latest_text) == (ComparisonSpec::UpToDate {
            current: cur,
            latest: latest_text,
        }) <==> (l.major == b.major && l.minor == b.minor && l.patch >= b.patch),
{
}


/// Whether two texts parse as versions and denote equal versions, with
/// equality as the `semver` crate defines it: numeric components,
/// pre-release and build metadata all alike.
pub uninterp spec fn version_eq(a: Seq<char>, b: Seq<char>) -> bool;

/// Relies on `semver::Version::parse` and `Version`'s equality.
#[verifier::external_body]
pub(crate) fn versions_equal(a: &str, b: &str) -> (r: bool)
    ensures
        r == version_eq(a@, b@),
{
    match (semver::Version::parse(a), semver::Version::parse(b)) {
        (Ok(x), Ok(y)) => x == y,
        _ => false,
    }
}

/// Relies on `semver::Version::parse`: parse outcome alone, as an `Option`.
pub(crate) fn try_parse_version(s: &str) -> (r: Option<VersionParts>)
    ensures
        r == semver_parse(s@),
{
    match parse_version(s) {
        Ok(p) => Some(p),
        Err(_) => None,
    }
}

} // verus!

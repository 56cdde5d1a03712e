//! Version badges: the inline annotations and their visual styles.

use vstd::prelude::*;
use vstd::string::StringExecFns;
use crate::text::{chars_of, string_of, token_end_spec, token_end, trim_spec, trimmed};
use crate::version::{semver_parse, try_parse_version, version_eq, versions_equal};

verus! {

/// Visual style of a badge.
#[derive(Debug, Clone, Copy, PartialEq, Eq, Structural)]
pub enum BadgeStyle {
    /// The package is up to date.
    UpToDate,
    /// The package is outdated within the same major version.
    Outdated,
    /// The major version differs.
    MajorDiff,
}

/// A version badge displayed inline at a manifest line.
#[derive(Debug)]
pub struct Badge {
    pub text: String,
    pub style: BadgeStyle,
    pub line: usize,
    pub package_name: String,
}

/// Specification-level value of a [`Badge`].
pub struct BadgeSpec {
    pub text: Seq<char>,
    pub style: BadgeStyle,
    pub line: int,
    pub package_name: Seq<char>,
}

impl View for Badge {
    type V = BadgeSpec;

    open spec fn view(&self) -> BadgeSpec {
        BadgeSpec {
            text: self.text@,
            style: self.style,
            line: self.line as int,
            package_name: self.package_name@,
        }
    }
}

impl DeepView for Badge {
    type V = BadgeSpec;

    open spec fn deep_view(&self) -> BadgeSpec {
        self.view()
    }
}

impl Clone for Badge {
    fn clone(&self) -> (r: Self)
        ensures
            r == *self,
    {
        Badge {
            text: self.text.clone(),
            style: self.style,
            line: self.line,
            package_name: self.package_name.clone(),
        }
    }
}

impl Badge {
    pub fn new(text: String, style: BadgeStyle, line: usize, package_name: String) -> (r: Self)
        ensures
            r.text == text,
            r.style == style,
            r.line == line,
            r.package_name == package_name,
    {
        Badge { text, style, line, package_name }
    }

    /// A badge for a package that is up to date.
    pub fn up_to_date(package_name: String, current: &str, latest: &str, line: usize) -> (r: Self)
        ensures
            r.text@ == current@ + " -> "@ + latest@ + " (up to date)"@,
            r.style == BadgeStyle::UpToDate,
            r.line == line,
            r.package_name == package_name,
    {
        let mut text = current.to_owned();
        text.append(" -> ");
        text.append(latest);
        text.append(" (up to date)");
        Badge { text, style: BadgeStyle::UpToDate, line, package_name }
    }

    /// A badge for an outdated package.
    pub fn outdated(package_name: String, current: &str, latest: &str, line: usize) -> (r: Self)
        ensures
            r.text@ == current@ + " -> "@ + latest@,
            r.style == BadgeStyle::Outdated,
            r.line == line,
            r.package_name == package_name,
    {
        let mut text = current.to_owned();
        text.append(" -> ");
        text.append(latest);
        Badge { text, style: BadgeStyle::Outdated, line, package_name }
    }

    /// A badge for a major-version difference.
    pub fn major_diff(package_name: String, current: &str, latest: &str, line: usize) -> (r: Self)
        ensures
            r.text@ == current@ + " -> "@ + latest@ + " (major)"@,
            r.style == BadgeStyle::MajorDiff,
            r.line == line,
            r.package_name == package_name,
    {
        let mut text = current.to_owned();
        text.append(" -> ");
        text.append(latest);
        text.append(" (major)");
        Badge { text, style: BadgeStyle::MajorDiff, line, package_name }
    }
}

/// Leading caret characters stripped from a version text.
pub open spec fn strip_carets_spec(s: Seq<char>) -> Seq<char>
    decreases s.len(),
{
    if s.len() > 0 && s[0] == '^' {
        strip_carets_spec(s.skip(1))
    } else {
        s
    }
}

/// A version text reduced to something the strict parser can read: one
/// leading `^` or `~` dropped, or for a range the first token kept.
pub open spec fn checked_version_spec(version: Seq<char>) -> Seq<char> {
    let t = trim_spec(version);
    if t.len() > 0 && (t[0] == '^' || t[0] == '~') {
        t.skip(1)
    } else if t.len() > 0 && (t[0] == '>' || t[0] == '<' || t[0] == '=') {
        t.take(token_end_spec(t, 0))
    } else {
        t
    }
}

/// The text a style comparison parses for one side: carets stripped, then
/// reduced as [`checked_version_spec`] does.
pub open spec fn style_text_spec(version: Seq<char>) -> Seq<char> {
    checked_version_spec(strip_carets_spec(version))
}

/// The style chosen for a pair of version texts: a differing major is a
/// major diff, any other inequality is outdated, equality is up to date,
/// and an unparseable side counts as outdated.
pub open spec fn style_of_spec(current: Seq<char>, latest: Seq<char>) -> BadgeStyle {
    let ca = style_text_spec(current);
    let cb = style_text_spec(latest);
    match (semver_parse(ca), semver_parse(cb)) {
        (Some(c), Some(l)) => if c.major != l.major {
            BadgeStyle::MajorDiff
        } else if !version_eq(ca, cb) {
            BadgeStyle::Outdated
        } else {
            BadgeStyle::UpToDate
        },
        (Some(c), None) => BadgeStyle::Outdated,
        (None, Some(l)) => BadgeStyle::Outdated,
        (None, None) => BadgeStyle::Outdated,
    }
}

/// Strips leading caret characters, then reduces the remainder for the
/// strict parser.
fn checked_version(version: &str) -> (r: String)
    ensures
        r@ == style_text_spec(version@),
{
    let vc = chars_of(version);
    let mut k: usize = 0;
    proof {
        assert(vc@.skip(0) =~= vc@);
    }
    while k < vc.len() && vc[k] == '^'
        invariant
            k <= vc@.len(),
            strip_carets_spec(vc@) == strip_carets_spec(vc@.skip(k as int)),
        decreases vc@.len() - k,
    {
        proof {
            assert(vc@.skip(k as int).skip(1) =~= vc@.skip(k + 1 as int));
            assert(vc@.skip(k as int)[0] == vc@[k as int]);
        }
        k = k + 1;
    }
    proof {
        if k < vc@.len() {
            assert(vc@.skip(k as int)[0] == vc@[k as int]);
        }
        assert(strip_carets_spec(vc@) == vc@.skip(k as int));
    }
    let stripped = crate::text::sub_vec(&vc, k, vc.len());
    proof {
        assert(stripped@ =~= vc@.skip(k as int));
    }
    let t = trimmed(&stripped);
    if t.len() > 0 && (t[0] == '^' || t[0] == '~') {
        let r = crate::text::sub_vec(&t, 1, t.len());
        proof {
            assert(r@ =~= t@.skip(1));
        }
        string_of(&r)
    } else if t.len() > 0 && (t[0] == '>' || t[0] == '<' || t[0] == '=') {
        let e = token_end(&t, 0);
        let r = crate::text::sub_vec(&t, 0, e);
        proof {
            assert(r@ =~= t@.take(token_end_spec(t@, 0)));
        }
        string_of(&r)
    } else {
        string_of(&t)
    }
}

impl BadgeStyle {
    /// The style for a (current, latest) version pair.
    pub fn from_version_diff(current: &str, latest: &str) -> (r: Self)
        ensures
            r == style_of_spec(current@, latest@),
    {
        let ca = checked_version(current);
        let cb = checked_version(latest);
        let pa = try_parse_version(ca.as_str());
        let pb = try_parse_version(cb.as_str());
        match (pa, pb) {
            (Some(c), Some(l)) => {
                if c.major != l.major {
                    BadgeStyle::MajorDiff
                } else if !versions_equal(ca.as_str(), cb.as_str()) {
                    BadgeStyle::Outdated
                } else {
                    BadgeStyle::UpToDate
                }
            },
            _ => BadgeStyle::Outdated,
        }
    }

    /// The foreground colour of this style, as an RGB hex code.
    pub fn color(&self) -> (r: &'static str)
        ensures
            self is UpToDate ==> r@ == "#4ade80"@,
            self is Outdated ==> r@ == "#facc15"@,
            self is MajorDiff ==> r@ == "#f87171"@,
    {
        match self {
            BadgeStyle::UpToDate => "#4ade80",
            BadgeStyle::Outdated => "#facc15",
            BadgeStyle::MajorDiff => "#f87171",
        }
    }

    /// The background colour of this style, as an RGBA hex code.
    pub fn background_color(&self) -> (r: &'static str)
        ensures
            self is UpToDate ==> r@ == "#22c55e33"@,
            self is Outdated ==> r@ == "#eab30833"@,
            self is MajorDiff ==> r@ == "#ef444433"@,
    {
        match self {
            BadgeStyle::UpToDate => "#22c55e33",
            BadgeStyle::Outdated => "#eab30833",
            BadgeStyle::MajorDiff => "#ef444433",
        }
    }
}

} // verus!

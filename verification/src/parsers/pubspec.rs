//! Parser for Dart package manifests (`pubspec.yaml`).
//!
//! An indentation-aware line scan: root-level lines ending in `:` switch
//! between the `dependencies` and `dev_dependencies` sections; within an
//! active section, `name: value` lines are captured unless the key is one
//! of the reserved non-package keys. The value is reduced to a bare
//! numeric version by stripping a leading `^`, `~` or `>` operator, and
//! anything else becomes `*`.

use vstd::prelude::*;
use crate::text::{
    chars_eq_str,
    chars_of,
    dotted_version_at,
    dotted_version_at_spec,
    lines_spec,
    skip_spaces,
    skip_spaces_spec,
    split_lines,
    str_eq,
    string_of,
    string_of_range,
    sub_vec,
    trim_spec,
    trimmed,
    word_end,
    word_end_spec,
};
use crate::parsers::types::{Dependency, DepSpec, ParseError};

verus! {

/// The version specifier a captured value reduces to: a leading `^`, `~` or
/// `>` operator and the spaces after it are stripped when a dotted numeric
/// version follows; any other value is the wildcard `*`.
pub open spec fn pubspec_version_of(vp: Seq<char>) -> Seq<char> {
    let start: int = if vp.len() > 0 && (vp[0] == '^' || vp[0] == '~' || vp[0] == '>') {
        1
    } else {
        0
    };
    let ds = skip_spaces_spec(vp, start);
    if dotted_version_at_spec(vp, ds) {
        vp.skip(ds)
    } else {
        "*"@
    }
}

/// The (name, specifier) capture of one trimmed line inside a dependency
/// section: a word-character key directly followed by `:` and a non-empty
/// value, except the reserved keys `flutter`, `sdk`, `git` and `path`.
pub open spec fn pubspec_line_match(t: Seq<char>) -> Option<(Seq<char>, Seq<char>)> {
    let w = word_end_spec(t, 0);
    if w <= 0 || w >= t.len() || t[w] != ':' {
        None
    } else {
        let rs = skip_spaces_spec(t, w + 1);
        if rs >= t.len() {
            None
        } else {
            let name = t.take(w);
            if name == "flutter"@ || name == "sdk"@ || name == "git"@ || name == "path"@ {
                None
            } else {
                Some((name, pubspec_version_of(t.skip(rs))))
            }
        }
    }
}

/// One step of the line scan: comments and blank lines change nothing,
/// root-level headers switch sections, and lines inside an active section
/// may contribute a capture.
pub open spec fn pubspec_step(line: Seq<char>, in_dep: bool, in_dev: bool) -> (bool, bool, Option<
    (Seq<char>, Seq<char>),
>) {
    let lead = skip_spaces_spec(line, 0);
    let t = trim_spec(line);
    if t.len() == 0 || t[0] == '#' {
        (in_dep, in_dev, None)
    } else if lead == 0 && t == "dependencies:"@ {
        (true, false, None)
    } else if lead == 0 && (t == "dev_dependencies:"@ || t == "dev-dependencies:"@) {
        (false, true, None)
    } else if lead == 0 && t[t.len() - 1] == ':' {
        (false, false, None)
    } else if !in_dep && !in_dev {
        (in_dep, in_dev, None)
    } else {
        (in_dep, in_dev, pubspec_line_match(t))
    }
}

/// The dependencies of the first `lines.len()` manifest lines, with the
/// section flags after scanning them.
pub open spec fn pubspec_scan(lines: Seq<Seq<char>>) -> (Seq<DepSpec>, bool, bool)
    decreases lines.len(),
{
    if lines.len() == 0 {
        (Seq::empty(), false, false)
    } else {
        let prev = pubspec_scan(lines.drop_last());
        let step = pubspec_step(lines.last(), prev.1, prev.2);
        match step.2 {
            None => (prev.0, step.0, step.1),
            Some(nv) => (
                prev.0.push(
                    DepSpec {
                        name: nv.0,
                        version_specifier: nv.1,
                        line_number: lines.len() as int,
                    },
                ),
                step.0,
                step.1,
            ),
        }
    }
}

/// All dependencies a `pubspec.yaml` text declares.
pub open spec fn pubspec_deps_spec(content: Seq<char>) -> Seq<DepSpec> {
    pubspec_scan(lines_spec(content)).0
}

pub struct PubspecParser;

impl PubspecParser {
    pub fn new() -> (r: Self) {
        PubspecParser
    }

    /// Extracts the dependencies of a `pubspec.yaml` text. The line scan
    /// never fails.
    pub fn parse_content(&self, content: &str) -> (r: Result<Vec<Dependency>, ParseError>)
        ensures
            r is Ok,
            r matches Ok(deps) ==> deps.deep_view() == pubspec_deps_spec(content@),
    {
        let chars = chars_of(content);
        let all_lines = split_lines(&chars);
        let ghost ls = lines_spec(content@);
        let mut deps: Vec<Dependency> = Vec::new();
        let mut in_dep = false;
        let mut in_dev = false;
        let mut idx: usize = 0;
        proof {
            assert(ls.take(0) =~= Seq::<Seq<char>>::empty());
        }
        while idx < all_lines.len()
            invariant
                idx <= all_lines@.len(),
                all_lines.deep_view() == ls,
                all_lines@.len() == ls.len(),
                deps.deep_view() == pubspec_scan(ls.take(idx as int)).0,
                in_dep == pubspec_scan(ls.take(idx as int)).1,
                in_dev == pubspec_scan(ls.take(idx as int)).2,
            decreases all_lines@.len() - idx,
        {
            let line = &all_lines[idx];
            proof {
                assert(line@ == all_lines.deep_view()[idx as int]);
            }
            let lead = skip_spaces(line, 0);
            let t = trimmed(line);
            let mut capture: Option<(String, String)> = None;
            if t.len() == 0 || t[0] == '#' {
            } else if lead == 0 && chars_eq_str(&t, "dependencies:") {
                in_dep = true;
                in_dev = false;
            } else if lead == 0 && (chars_eq_str(&t, "dev_dependencies:") || chars_eq_str(
                &t,
                "dev-dependencies:",
            )) {
                in_dep = false;
                in_dev = true;
            } else if lead == 0 && t[t.len() - 1] == ':' {
                in_dep = false;
                in_dev = false;
            } else if !in_dep && !in_dev {
            } else {
                capture = Self::line_match(&t);
            }
            match capture {
                None => {},
                Some(nv) => {
                    let dep = Dependency {
                        name: nv.0,
                        version_specifier: nv.1,
                        line_number: idx + 1,
                    };
                    let ghost old_deps = deps.deep_view();
                    let ghost dep_view = dep@;
                    deps.push(dep);
                    proof {
                        assert(deps.deep_view() =~= old_deps.push(dep_view));
                    }
                },
            }
            proof {
                assert(ls.take(idx + 1 as int).drop_last() =~= ls.take(idx as int));
                assert(ls.take(idx + 1 as int).last() == ls[idx as int]);
            }
            idx = idx + 1;
        }
        proof {
            assert(ls.take(idx as int) =~= ls);
        }
        Ok(deps)
    }

    /// The (name, specifier) capture of one trimmed line, as owned strings.
    fn line_match(t: &Vec<char>) -> (r: Option<(String, String)>)
        ensures
            r is Some <==> pubspec_line_match(t@) is Some,
            r matches Some(p) ==> pubspec_line_match(t@) matches Some(q) && p.0@ == q.0 && p.1@
                == q.1,
    {
        let w = word_end(t, 0);
        if w == 0 || w >= t.len() || t[w] != ':' {
            return None;
        }
        let rs = skip_spaces(t, w + 1);
        if rs >= t.len() {
            return None;
        }
        let name_v = sub_vec(t, 0, w);
        proof {
            assert(name_v@ =~= t@.take(w as int));
        }
        if chars_eq_str(&name_v, "flutter") || chars_eq_str(&name_v, "sdk") || chars_eq_str(
            &name_v,
            "git",
        ) || chars_eq_str(&name_v, "path") {
            return None;
        }
        let vp = sub_vec(t, rs, t.len());
        proof {
            assert(vp@ =~= t@.skip(rs as int));
        }
        let ver = Self::version_of(&vp);
        Some((string_of(&name_v), ver))
    }

    /// Reduces a captured value to its version specifier.
    fn version_of(vp: &Vec<char>) -> (r: String)
        ensures
            r@ == pubspec_version_of(vp@),
    {
        let start: usize = if vp.len() > 0 && (vp[0] == '^' || vp[0] == '~' || vp[0] == '>') {
            1
        } else {
            0
        };
        let ds = skip_spaces(vp, start);
        if dotted_version_at(vp, ds) {
            let r = string_of_range(vp, ds, vp.len());
            proof {
                assert(vp@.subrange(ds as int, vp@.len() as int) =~= vp@.skip(ds as int));
            }
            r
        } else {
            "*".to_owned()
        }
    }

    pub fn supports(&self, filename: &str) -> (r: bool)
        ensures
            r == (filename@ == "pubspec.yaml"@),
    {
        str_eq(filename, "pubspec.yaml")
    }
}

impl crate::parsers::PackageParser for PubspecParser {
    fn parse(&self, content: &str) -> Result<Vec<Dependency>, ParseError> {
        self.parse_content(content)
    }

    fn supports_file(&self, filename: &str) -> bool {
        self.supports(filename)
    }
}

impl Default for PubspecParser {
    fn default() -> (r: Self) {
        PubspecParser
    }
}

} // verus!

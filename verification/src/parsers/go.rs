//! Parser for Go module manifests (`go.mod`).
//!
//! A line scan tracks entry and exit of a `require ( … )` block; every line,
//! inside or outside the block, is tested for a module path followed by a
//! dotted numeric version, optionally `v`-prefixed and optionally preceded
//! by the `require` keyword. The module path `go` is the toolchain
//! directive, not a dependency, and is excluded.

use vstd::prelude::*;
use crate::text::{
    chars_of,
    chars_eq_str,
    dotted_version_at,
    dotted_version_at_spec,
    first_version_token_spec,
    is_version_token_spec,
    lemma_first_version_token,
    lemma_token_spans_bounds,
    lines_spec,
    split_lines,
    spans_view,
    str_eq,
    string_of_range,
    token_spans,
    token_spans_spec,
    trim_spec,
    trimmed,
    ver_start_spec,
};
use crate::parsers::types::{Dependency, DepSpec, ParseError};

verus! {

/// The (name, version) capture of one trimmed manifest line, if any: the
/// first whitespace-separated token that is a dotted numeric version
/// (optionally `v`-prefixed) yields the version, the token before it the
/// name; the toolchain name `go` yields nothing.
pub open spec fn go_line_match(t: Seq<char>) -> Option<(Seq<char>, Seq<char>)> {
    let toks = token_spans_spec(t, 0);
    match first_version_token_spec(t, toks, 1) {
        None => None,
        Some(k) => {
            let name = t.subrange(toks[k - 1].0, toks[k - 1].1);
            let ver = t.skip(ver_start_spec(t, toks[k].0));
            if name == "go"@ {
                None
            } else {
                Some((name, ver))
            }
        },
    }
}

/// One step of the line scan: block markers toggle the in-block flag, every
/// other line may contribute a capture.
pub open spec fn go_step(line: Seq<char>, in_block: bool) -> (bool, Option<
    (Seq<char>, Seq<char>),
>) {
    let t = trim_spec(line);
    if t == "require("@ || t == "require ("@ {
        (true, None)
    } else if in_block && t == ")"@ {
        (false, None)
    } else {
        (in_block, go_line_match(t))
    }
}

/// The dependencies of the first `lines.len()` manifest lines, with the
/// in-block flag after scanning them.
pub open spec fn go_scan(lines: Seq<Seq<char>>) -> (Seq<DepSpec>, bool)
    decreases lines.len(),
{
    if lines.len() == 0 {
        (Seq::empty(), false)
    } else {
        let prev = go_scan(lines.drop_last());
        let step = go_step(lines.last(), prev.1);
        match step.1 {
            None => (prev.0, step.0),
            Some(nv) => (
                prev.0.push(
                    DepSpec {
                        name: nv.0,
                        version_specifier: nv.1,
                        line_number: lines.len() as int,
                    },
                ),
                step.0,
            ),
        }
    }
}

/// All dependencies a `go.mod` text declares.
pub open spec fn go_deps_spec(content: Seq<char>) -> Seq<DepSpec> {
    go_scan(lines_spec(content)).0
}

pub struct GoParser;

impl GoParser {
    pub fn new() -> (r: Self) {
        GoParser
    }

    /// Extracts the dependencies of a `go.mod` text. The line scan never
    /// fails.
    pub fn parse_content(&self, content: &str) -> (r: Result<Vec<Dependency>, ParseError>)
        ensures
            r is Ok,
            r matches Ok(deps) ==> deps.deep_view() == go_deps_spec(content@),
    {
        let chars = chars_of(content);
        let all_lines = split_lines(&chars);
        let ghost ls = lines_spec(content@);
        let mut deps: Vec<Dependency> = Vec::new();
        let mut in_block = false;
        let mut idx: usize = 0;
        proof {
            assert(ls.take(0) =~= Seq::<Seq<char>>::empty());
        }
        while idx < all_lines.len()
            invariant
                idx <= all_lines@.len(),
                all_lines.deep_view() == ls,
                all_lines@.len() == ls.len(),
                deps.deep_view() == go_scan(ls.take(idx as int)).0,
                in_block == go_scan(ls.take(idx as int)).1,
            decreases all_lines@.len() - idx,
        {
            let line = &all_lines[idx];
            proof {
                assert(line@ == all_lines.deep_view()[idx as int]);
            }
            let t = trimmed(line);
            let new_in_block: bool;
            let mut capture: Option<(String, String)> = None;
            if chars_eq_str(&t, "require(") || chars_eq_str(&t, "require (") {
                new_in_block = true;
            } else if in_block && chars_eq_str(&t, ")") {
                new_in_block = false;
            } else {
                new_in_block = in_block;
                capture = Self::line_match(&t);
            }
            match capture {
                None => {},
                Some(nv) => {
                    let dep = Dependency {
                        name: nv.0,
                        version_specifier: nv.1,
                        line_number: idx + 1,
                    };
                    let ghost old_deps = deps.deep_view();
                    let ghost dep_view = dep@;
                    deps.push(dep);
                    proof {
                        assert(deps.deep_view() =~= old_deps.push(dep_view));
                    }
                },
            }
            in_block = new_in_block;
            proof {
                assert(ls.take(idx + 1 as int).drop_last() =~= ls.take(idx as int));
                assert(ls.take(idx + 1 as int).last() == ls[idx as int]);
            }
            idx = idx + 1;
        }
        proof {
            assert(ls.take(idx as int) =~= ls);
        }
        Ok(deps)
    }

    /// The (name, version) capture of one trimmed line, as owned strings.
    fn line_match(t: &Vec<char>) -> (r: Option<(String, String)>)
        ensures
            r is Some <==> go_line_match(t@) is Some,
            r matches Some(p) ==> go_line_match(t@) matches Some(q) && p.0@ == q.0 && p.1@ == q.1,
    {
        let toks = token_spans(t);
        proof {
            lemma_token_spans_bounds(t@, 0);
        }
        let ghost spans = token_spans_spec(t@, 0);
        let mut k: usize = 1;
        let mut found: Option<usize> = None;
        while k < toks.len() && found.is_none()
            invariant
                1 <= k,
                spans_view(toks@) == spans,
                toks@.len() == spans.len(),
                forall|j: int|
                    0 <= j < spans.len() ==> 0 <= (#[trigger] spans[j]).0 < spans[j].1
                        <= t@.len(),
                forall|j: int| 0 <= j < toks@.len() ==> (#[trigger] toks@[j]).0 == spans[j].0,
                match found {
                    None => k <= spans.len() || spans.len() == 0,
                    Some(f) => 1 <= f < spans.len(),
                },
                first_version_token_spec(t@, spans, 1) == match found {
                    None => first_version_token_spec(t@, spans, k as int),
                    Some(f) => Some(f as int),
                },
            decreases spans.len() - k + (if found is None { 1int } else { 0int }),
        {
            let a = toks[k].0;
            proof {
                assert(spans[k as int].0 == a);
            }
            if Self::is_version_tok(t, a) {
                found = Some(k);
            } else {
                k = k + 1;
            }
        }
        proof {
            if found is None {
                if spans.len() > 0 {
                    assert(k as int >= spans.len());
                }
                assert(first_version_token_spec(t@, spans, 1) is None);
            }
        }
        proof {
            lemma_first_version_token(t@, spans, 1);
        }
        match found {
            None => None,
            Some(f) => {
                let (na, nb) = (toks[f - 1].0, toks[f - 1].1);
                proof {
                    assert(spans[f - 1 as int].0 == na && spans[f - 1 as int].1 == nb);
                }
                let name = string_of_range(t, na, nb);
                let a = toks[f].0;
                proof {
                    assert(spans[f as int].0 == a);
                }
                let vs: usize = if a < t.len() && t[a] == 'v' {
                    a + 1
                } else {
                    a
                };
                proof {
                    assert(vs as int == ver_start_spec(t@, a as int));
                    assert(vs <= t@.len()) by {
                        assert(is_version_token_spec(t@, a as int));
                    };
                }
                let ver = string_of_range(t, vs, t.len());
                proof {
                    assert(t@.subrange(vs as int, t@.len() as int) =~= t@.skip(vs as int));
                }
                if str_eq(name.as_str(), "go") {
                    None
                } else {
                    Some((name, ver))
                }
            },
        }
    }

    /// Whether the token starting at `a` is a dotted numeric version,
    /// optionally `v`-prefixed.
    fn is_version_tok(t: &Vec<char>, a: usize) -> (r: bool)
        requires
            a < t@.len(),
        ensures
            r == is_version_token_spec(t@, a as int),
    {
        let n = t.len();
        let vs: usize = if t[a] == 'v' {
            a + 1
        } else {
            a
        };
        dotted_version_at(t, vs)
    }

    pub fn supports(&self, filename: &str) -> (r: bool)
        ensures
            r == (filename@ == "go.mod"@),
    {
        str_eq(filename, "go.mod")
    }
}

impl crate::parsers::PackageParser for GoParser {
    fn parse(&self, content: &str) -> Result<Vec<Dependency>, ParseError> {
        self.parse_content(content)
    }

    fn supports_file(&self, filename: &str) -> bool {
        self.supports(filename)
    }
}

impl Default for GoParser {
    fn default() -> (r: Self) {
        GoParser
    }
}

} // verus!

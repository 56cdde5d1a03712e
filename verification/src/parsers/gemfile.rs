//! Parser for Ruby Gemfiles.
//!
//! A line scan; comments are skipped. Four patterns are attempted per line,
//! in priority order: quoted name with quoted version, quoted name with a
//! pessimistic (`~`/`^`) version, unquoted name with quoted version, and
//! quoted name without a version. A pattern only contributes an entry when
//! its name was not captured earlier in the scan.

use vstd::prelude::*;
use crate::text::{
    chars_of,
    digits_end_spec,
    digits_end,
    lines_spec,
    skip_spaces,
    skip_spaces_spec,
    split_lines,
    str_eq,
    string_of_range,
    trim_spec,
    trimmed,
    word_end,
    word_end_spec,
    range_starts_with,
    starts_with_spec,
};
use crate::parsers::types::{Dependency, DepSpec, ParseError, has_name, has_name_spec};

verus! {

pub open spec fn is_quote_char(c: char) -> bool {
    c == '\'' || c == '"'
}

fn is_quote(c: char) -> (r: bool)
    ensures
        r == is_quote_char(c),
{
    c == '\'' || c == '"'
}

/// End of the run of non-quote characters starting at `i`.
pub open spec fn nonquote_end_spec(s: Seq<char>, i: int) -> int
    decreases s.len() - i,
{
    if 0 <= i < s.len() && !is_quote_char(s[i]) {
        nonquote_end_spec(s, i + 1)
    } else {
        i
    }
}

proof fn lemma_nonquote_end_bounds(s: Seq<char>, i: int)
    requires
        0 <= i <= s.len(),
    ensures
        i <= nonquote_end_spec(s, i) <= s.len(),
    decreases s.len() - i,
{
    if i < s.len() && !is_quote_char(s[i]) {
        lemma_nonquote_end_bounds(s, i + 1);
    }
}

fn nonquote_end(v: &Vec<char>, from: usize) -> (r: usize)
    requires
        from <= v@.len(),
    ensures
        r == nonquote_end_spec(v@, from as int),
        from <= r <= v@.len(),
    decreases v@.len() - from,
{
    proof {
        lemma_nonquote_end_bounds(v@, from as int);
    }
    if from < v.len() && !is_quote(v[from]) {
        nonquote_end(v, from + 1)
    } else {
        from
    }
}

/// Index right after `gem` plus at least one space, when the text at `i`
/// starts that way; `-1` otherwise.
pub open spec fn gem_start_spec(t: Seq<char>, i: int) -> int {
    if 0 <= i && i + 3 <= t.len() && t.subrange(i, i + 3) == "gem"@ && skip_spaces_spec(t, i + 3)
        > i + 3 {
        skip_spaces_spec(t, i + 3)
    } else {
        -1
    }
}

/// Pattern: `gem 'name', 'version'` — quoted name, comma, quoted version.
pub open spec fn g1_at(t: Seq<char>, i: int) -> Option<(Seq<char>, Seq<char>)> {
    let j = gem_start_spec(t, i);
    if j < 0 || j >= t.len() || !is_quote_char(t[j]) {
        None
    } else {
        let ne = nonquote_end_spec(t, j + 1);
        if !(ne > j + 1 && ne < t.len() && is_quote_char(t[ne])) {
            None
        } else {
            let c = skip_spaces_spec(t, ne + 1);
            if !(c < t.len() && t[c] == ',') {
                None
            } else {
                let q = skip_spaces_spec(t, c + 1);
                if !(q < t.len() && is_quote_char(t[q])) {
                    None
                } else {
                    let ve = nonquote_end_spec(t, q + 1);
                    if !(ve > q + 1 && ve < t.len() && is_quote_char(t[ve])) {
                        None
                    } else {
                        Some((t.subrange(j + 1, ne), t.subrange(q + 1, ve)))
                    }
                }
            }
        }
    }
}

/// Pattern: `gem 'name', '~ 1.2[.3]` — quoted name, comma, a quote, then a
/// pessimistic operator and a two- or three-part numeric version.
pub open spec fn g2_at(t: Seq<char>, i: int) -> Option<(Seq<char>, Seq<char>)> {
    let j = gem_start_spec(t, i);
    if j < 0 || j >= t.len() || !is_quote_char(t[j]) {
        None
    } else {
        let ne = nonquote_end_spec(t, j + 1);
        if !(ne > j + 1 && ne < t.len() && is_quote_char(t[ne])) {
            None
        } else {
            let c = skip_spaces_spec(t, ne + 1);
            if !(c < t.len() && t[c] == ',') {
                None
            } else {
                let q = skip_spaces_spec(t, c + 1);
                if !(q < t.len() && is_quote_char(t[q]) && q + 1 < t.len() && (t[q + 1] == '~'
                    || t[q + 1] == '^')) {
                    None
                } else {
                    let ds = skip_spaces_spec(t, q + 2);
                    let d1 = digits_end_spec(t, ds);
                    if !(d1 > ds && d1 < t.len() && t[d1] == '.') {
                        None
                    } else {
                        let d2 = digits_end_spec(t, d1 + 1);
                        if !(d2 > d1 + 1) {
                            None
                        } else {
                            let d3 = if d2 < t.len() && t[d2] == '.' && digits_end_spec(t, d2 + 1)
                                > d2 + 1 {
                                digits_end_spec(t, d2 + 1)
                            } else {
                                d2
                            };
                            Some((t.subrange(j + 1, ne), t.subrange(q + 1, d3)))
                        }
                    }
                }
            }
        }
    }
}

/// Pattern: `gem name, 'version'` — unquoted word name, comma, quoted
/// version.
pub open spec fn g4_at(t: Seq<char>, i: int) -> Option<(Seq<char>, Seq<char>)> {
    let j = gem_start_spec(t, i);
    if j < 0 {
        None
    } else {
        let ne = word_end_spec(t, j);
        if !(ne > j) {
            None
        } else {
            let c = skip_spaces_spec(t, ne);
            if !(c < t.len() && t[c] == ',') {
                None
            } else {
                let q = skip_spaces_spec(t, c + 1);
                if !(q < t.len() && is_quote_char(t[q])) {
                    None
                } else {
                    let ve = nonquote_end_spec(t, q + 1);
                    if !(ve > q + 1 && ve < t.len() && is_quote_char(t[ve])) {
                        None
                    } else {
                        Some((t.subrange(j, ne), t.subrange(q + 1, ve)))
                    }
                }
            }
        }
    }
}

/// Pattern: `gem 'name'` at the end of the line, optionally followed by a
/// comma — a dependency without a version.
pub open spec fn g3_at(t: Seq<char>, i: int) -> Option<Seq<char>> {
    let j = gem_start_spec(t, i);
    if j < 0 || j >= t.len() || !is_quote_char(t[j]) {
        None
    } else {
        let ne = nonquote_end_spec(t, j + 1);
        if !(ne > j + 1 && ne < t.len() && is_quote_char(t[ne])) {
            None
        } else {
            let p = skip_spaces_spec(t, ne + 1);
            if p == t.len() || (t[p] == ',' && p + 1 == t.len()) {
                Some(t.subrange(j + 1, ne))
            } else {
                None
            }
        }
    }
}

/// First position at or after `i` where pattern 1 matches.
pub open spec fn first_g1(t: Seq<char>, i: int) -> Option<(Seq<char>, Seq<char>)>
    decreases t.len() - i,
{
    if !(0 <= i < t.len()) {
        None
    } else if g1_at(t, i) is Some {
        g1_at(t, i)
    } else {
        first_g1(t, i + 1)
    }
}

pub open spec fn first_g2(t: Seq<char>, i: int) -> Option<(Seq<char>, Seq<char>)>
    decreases t.len() - i,
{
    if !(0 <= i < t.len()) {
        None
    } else if g2_at(t, i) is Some {
        g2_at(t, i)
    } else {
        first_g2(t, i + 1)
    }
}

pub open spec fn first_g4(t: Seq<char>, i: int) -> Option<(Seq<char>, Seq<char>)>
    decreases t.len() - i,
{
    if !(0 <= i < t.len()) {
        None
    } else if g4_at(t, i) is Some {
        g4_at(t, i)
    } else {
        first_g4(t, i + 1)
    }
}

pub open spec fn first_g3(t: Seq<char>, i: int) -> Option<Seq<char>>
    decreases t.len() - i,
{
    if !(0 <= i < t.len()) {
        None
    } else if g3_at(t, i) is Some {
        g3_at(t, i)
    } else {
        first_g3(t, i + 1)
    }
}

/// The capture of one trimmed line, given the names captured so far:
/// comments yield nothing, and a pattern only contributes an entry when
/// its name was not captured earlier in the scan.
pub open spec fn gemfile_line_dep(t: Seq<char>, known: Seq<DepSpec>) -> Option<
    (Seq<char>, Seq<char>),
> {
    if t.len() > 0 && t[0] == '#' {
        None
    } else if first_g1(t, 0) matches Some(nv) && !has_name_spec(known, nv.0) {
        first_g1(t, 0)
    } else if first_g2(t, 0) matches Some(nv) && !has_name_spec(known, nv.0) {
        first_g2(t, 0)
    } else if first_g4(t, 0) matches Some(nv) && !has_name_spec(known, nv.0) {
        first_g4(t, 0)
    } else if first_g3(t, 0) matches Some(n) && !has_name_spec(known, n) {
        Some((first_g3(t, 0)->Some_0, "*"@))
    } else {
        None
    }
}

/// The dependencies of the first `lines.len()` Gemfile lines.
pub open spec fn gemfile_scan(lines: Seq<Seq<char>>) -> Seq<DepSpec>
    decreases lines.len(),
{
    if lines.len() == 0 {
        Seq::empty()
    } else {
        let prev = gemfile_scan(lines.drop_last());
        match gemfile_line_dep(trim_spec(lines.last()), prev) {
            None => prev,
            Some(nv) => prev.push(
                DepSpec { name: nv.0, version_specifier: nv.1, line_number: lines.len() as int },
            ),
        }
    }
}

/// All dependencies a Gemfile text declares.
pub open spec fn gemfile_deps_spec(content: Seq<char>) -> Seq<DepSpec> {
    gemfile_scan(lines_spec(content))
}

pub struct GemfileParser;

impl GemfileParser {
    pub fn new() -> (r: Self) {
        GemfileParser
    }

    /// Extracts the dependencies of a Gemfile text. The line scan never
    /// fails.
    pub fn parse_content(&self, content: &str) -> (r: Result<Vec<Dependency>, ParseError>)
        ensures
            r is Ok,
            r matches Ok(deps) ==> deps.deep_view() == gemfile_deps_spec(content@),
    {
        let chars = chars_of(content);
        let all_lines = split_lines(&chars);
        let ghost ls = lines_spec(content@);
        let mut deps: Vec<Dependency> = Vec::new();
        let mut idx: usize = 0;
        proof {
            assert(ls.take(0) =~= Seq::<Seq<char>>::empty());
        }
        while idx < all_lines.len()
            invariant
                idx <= all_lines@.len(),
                all_lines.deep_view() == ls,
                all_lines@.len() == ls.len(),
                deps.deep_view() == gemfile_scan(ls.take(idx as int)),
            decreases all_lines@.len() - idx,
        {
            let line = &all_lines[idx];
            proof {
                assert(line@ == all_lines.deep_view()[idx as int]);
            }
            let t = trimmed(line);
            let capture = Self::line_dep(&t, &deps);
            match capture {
                None => {},
                Some(nv) => {
                    let dep = Dependency {
                        name: nv.0,
                        version_specifier: nv.1,
                        line_number: idx + 1,
                    };
                    let ghost old_deps = deps.deep_view();
                    let ghost dep_view = dep@;
                    deps.push(dep);
                    proof {
                        assert(deps.deep_view() =~= old_deps.push(dep_view));
                    }
                },
            }
            proof {
                assert(ls.take(idx + 1 as int).drop_last() =~= ls.take(idx as int));
                assert(ls.take(idx + 1 as int).last() == ls[idx as int]);
            }
            idx = idx + 1;
        }
        proof {
            assert(ls.take(idx as int) =~= ls);
        }
        Ok(deps)
    }

    /// The capture of one trimmed line given the dependencies captured so
    /// far.
    fn line_dep(t: &Vec<char>, deps: &Vec<Dependency>) -> (r: Option<(String, String)>)
        ensures
            r is Some <==> gemfile_line_dep(t@, deps.deep_view()) is Some,
            r matches Some(p) ==> gemfile_line_dep(t@, deps.deep_view()) matches Some(q) && p.0@
                == q.0 && p.1@ == q.1,
    {
        if t.len() > 0 && t[0] == '#' {
            return None;
        }
        match Self::find_g1(t) {
            Some(nv) => {
                if !has_name(deps, nv.0.as_str()) {
                    return Some(nv);
                }
            },
            None => {},
        }
        match Self::find_g2(t) {
            Some(nv) => {
                if !has_name(deps, nv.0.as_str()) {
                    return Some(nv);
                }
            },
            None => {},
        }
        match Self::find_g4(t) {
            Some(nv) => {
                if !has_name(deps, nv.0.as_str()) {
                    return Some(nv);
                }
            },
            None => {},
        }
        match Self::find_g3(t) {
            Some(n) => {
                if !has_name(deps, n.as_str()) {
                    return Some((n, "*".to_owned()));
                }
            },
            None => {},
        }
        None
    }

    /// Leftmost match of the quoted name + quoted version pattern.
    fn find_g1(t: &Vec<char>) -> (r: Option<(String, String)>)
        ensures
            r is Some <==> first_g1(t@, 0) is Some,
            r matches Some(p) ==> first_g1(t@, 0) matches Some(q) && p.0@ == q.0 && p.1@ == q.1,
    {
        let mut i: usize = 0;
        while i < t.len()
            invariant
                i <= t@.len(),
                first_g1(t@, 0) == first_g1(t@, i as int),
            decreases t@.len() - i,
        {
            match Self::g1_match(t, i) {
                Some(nv) => {
                    return Some(nv);
                },
                None => {},
            }
            i = i + 1;
        }
        None
    }

    fn find_g2(t: &Vec<char>) -> (r: Option<(String, String)>)
        ensures
            r is Some <==> first_g2(t@, 0) is Some,
            r matches Some(p) ==> first_g2(t@, 0) matches Some(q) && p.0@ == q.0 && p.1@ == q.1,
    {
        let mut i: usize = 0;
        while i < t.len()
            invariant
                i <= t@.len(),
                first_g2(t@, 0) == first_g2(t@, i as int),
            decreases t@.len() - i,
        {
            match Self::g2_match(t, i) {
                Some(nv) => {
                    return Some(nv);
                },
                None => {},
            }
            i = i + 1;
        }
        None
    }

    fn find_g4(t: &Vec<char>) -> (r: Option<(String, String)>)
        ensures
            r is Some <==> first_g4(t@, 0) is Some,
            r matches Some(p) ==> first_g4(t@, 0) matches Some(q) && p.0@ == q.0 && p.1@ == q.1,
    {
        let mut i: usize = 0;
        while i < t.len()
            invariant
                i <= t@.len(),
                first_g4(t@, 0) == first_g4(t@, i as int),
            decreases t@.len() - i,
        {
            match Self::g4_match(t, i) {
                Some(nv) => {
                    return Some(nv);
                },
                None => {},
            }
            i = i + 1;
        }
        None
    }

    fn find_g3(t: &Vec<char>) -> (r: Option<String>)
        ensures
            r is Some <==> first_g3(t@, 0) is Some,
            r matches Some(p) ==> first_g3(t@, 0) matches Some(q) && p@ == q,
    {
        let mut i: usize = 0;
        while i < t.len()
            invariant
                i <= t@.len(),
                first_g3(t@, 0) == first_g3(t@, i as int),
            decreases t@.len() - i,
        {
            match Self::g3_match(t, i) {
                Some(n) => {
                    return Some(n);
                },
                None => {},
            }
            i = i + 1;
        }
        None
    }

    /// Index after `gem` and at least one space at position `i`, if present.
    fn gem_start(t: &Vec<char>, i: usize) -> (r: Option<usize>)
        requires
            i <= t@.len(),
        ensures
            r is Some <==> gem_start_spec(t@, i as int) >= 0,
            r matches Some(j) ==> j == gem_start_spec(t@, i as int) && i <= j <= t@.len(),
    {
        proof {
            reveal_strlit("gem");
        }
        let n = t.len();
        if n - i < 3 {
            return None;
        }
        if !range_starts_with(t, i, "gem") {
            proof {
                assert(t@.skip(i as int).subrange(0, 3) =~= t@.subrange(i as int, i + 3));
            }
            return None;
        }
        proof {
            assert(t@.skip(i as int).subrange(0, 3) =~= t@.subrange(i as int, i + 3));
        }
        let j = skip_spaces(t, i + 3);
        if j == i + 3 {
            return None;
        }
        Some(j)
    }

    /// Pattern 1 at position `i`.
    fn g1_match(t: &Vec<char>, i: usize) -> (r: Option<(String, String)>)
        requires
            i <= t@.len(),
        ensures
            r is Some <==> g1_at(t@, i as int) is Some,
            r matches Some(p) ==> g1_at(t@, i as int) matches Some(q) && p.0@ == q.0 && p.1@
                == q.1,
    {
        let j = match Self::gem_start(t, i) {
            None => {
                return None;
            },
            Some(j) => j,
        };
        if !(j < t.len() && is_quote(t[j])) {
            return None;
        }
        let ne = nonquote_end(t, j + 1);
        if !(ne > j + 1 && ne < t.len() && is_quote(t[ne])) {
            return None;
        }
        let c = skip_spaces(t, ne + 1);
        if !(c < t.len() && t[c] == ',') {
            return None;
        }
        let q = skip_spaces(t, c + 1);
        if !(q < t.len() && is_quote(t[q])) {
            return None;
        }
        let ve = nonquote_end(t, q + 1);
        if !(ve > q + 1 && ve < t.len() && is_quote(t[ve])) {
            return None;
        }
        Some((string_of_range(t, j + 1, ne), string_of_range(t, q + 1, ve)))
    }

    /// Pattern 2 (pessimistic version) at position `i`.
    fn g2_match(t: &Vec<char>, i: usize) -> (r: Option<(String, String)>)
        requires
            i <= t@.len(),
        ensures
            r is Some <==> g2_at(t@, i as int) is Some,
            r matches Some(p) ==> g2_at(t@, i as int) matches Some(q) && p.0@ == q.0 && p.1@
                == q.1,
    {
        let j = match Self::gem_start(t, i) {
            None => {
                return None;
            },
            Some(j) => j,
        };
        if !(j < t.len() && is_quote(t[j])) {
            return None;
        }
        let ne = nonquote_end(t, j + 1);
        if !(ne > j + 1 && ne < t.len() && is_quote(t[ne])) {
            return None;
        }
        let c = skip_spaces(t, ne + 1);
        if !(c < t.len() && t[c] == ',') {
            return None;
        }
        let q = skip_spaces(t, c + 1);
        if !(q < t.len() && is_quote(t[q]) && q + 1 < t.len() && (t[q + 1] == '~' || t[q + 1]
            == '^')) {
            return None;
        }
        let ds = skip_spaces(t, q + 2);
        let d1 = digits_end(t, ds);
        if !(d1 > ds && d1 < t.len() && t[d1] == '.') {
            return None;
        }
        let d2 = digits_end(t, d1 + 1);
        if !(d2 > d1 + 1) {
            return None;
        }
        let d3: usize;
        if d2 < t.len() && t[d2] == '.' {
            let e = digits_end(t, d2 + 1);
            if e > d2 + 1 {
                d3 = e;
            } else {
                d3 = d2;
            }
        } else {
            d3 = d2;
        }
        Some((string_of_range(t, j + 1, ne), string_of_range(t, q + 1, d3)))
    }

    /// Pattern 4 (unquoted name) at position `i`.
    fn g4_match(t: &Vec<char>, i: usize) -> (r: Option<(String, String)>)
        requires
            i <= t@.len(),
        ensures
            r is Some <==> g4_at(t@, i as int) is Some,
            r matches Some(p) ==> g4_at(t@, i as int) matches Some(q) && p.0@ == q.0 && p.1@
                == q.1,
    {
        let j = match Self::gem_start(t, i) {
            None => {
                return None;
            },
            Some(j) => j,
        };
        let ne = word_end(t, j);
        if !(ne > j) {
            return None;
        }
        let c = skip_spaces(t, ne);
        if !(c < t.len() && t[c] == ',') {
            return None;
        }
        let q = skip_spaces(t, c + 1);
        if !(q < t.len() && is_quote(t[q])) {
            return None;
        }
        let ve = nonquote_end(t, q + 1);
        if !(ve > q + 1 && ve < t.len() && is_quote(t[ve])) {
            return None;
        }
        Some((string_of_range(t, j, ne), string_of_range(t, q + 1, ve)))
    }

    /// Pattern 3 (no version) at position `i`.
    fn g3_match(t: &Vec<char>, i: usize) -> (r: Option<String>)
        requires
            i <= t@.len(),
        ensures
            r is Some <==> g3_at(t@, i as int) is Some,
            r matches Some(p) ==> g3_at(t@, i as int) matches Some(q) && p@ == q,
    {
        let j = match Self::gem_start(t, i) {
            None => {
                return None;
            },
            Some(j) => j,
        };
        if !(j < t.len() && is_quote(t[j])) {
            return None;
        }
        let ne = nonquote_end(t, j + 1);
        if !(ne > j + 1 && ne < t.len() && is_quote(t[ne])) {
            return None;
        }
        let p = skip_spaces(t, ne + 1);
        if p == t.len() || (t[p] == ',' && p + 1 == t.len()) {
            Some(string_of_range(t, j + 1, ne))
        } else {
            None
        }
    }

    pub fn supports(&self, filename: &str) -> (r: bool)
        ensures
            r == (filename@ == "Gemfile"@),
    {
        str_eq(filename, "Gemfile")
    }
}

impl crate::parsers::PackageParser for GemfileParser {
    fn parse(&self, content: &str) -> Result<Vec<Dependency>, ParseError> {
        self.parse_content(content)
    }

    fn supports_file(&self, filename: &str) -> bool {
        self.supports(filename)
    }
}

impl Default for GemfileParser {
    fn default() -> (r: Self) {
        GemfileParser
    }
}

} // verus!

//! Parser for npm package manifests (`package.json`).
//!
//! The values come from a structured JSON parse of the `dependencies`,
//! `devDependencies` and `peerDependencies` sections; a separate
//! line-oriented pass tracks brace depth to locate the source line of each
//! key inside its section, because the structured parse discards position
//! information. A key the line pass did not see gets line 0.

use vstd::prelude::*;
use crate::text::{
    chars_of,
    count_char_spec,
    count_char,
    find_char,
    find_char_spec,
    lemma_count_char_bound,
    lemma_lines_spec_sum,
    lemma_sum_lens_nonneg,
    lemma_sum_lens_parts,
    lines_spec,
    range_starts_with,
    skip_spaces,
    skip_spaces_spec,
    split_lines,
    str_eq,
    string_of_range,
    sum_lens,
};
use crate::json_data::{json_dep_entries, json_err_msg, json_ok, json_section_deps};
use crate::parsers::types::{Dependency, DependencySection, DepSpec, ParseError};

verus! {

/// A member's version specifier: its string form, or empty where it had
/// none.
pub open spec fn or_empty(v: Option<Seq<char>>) -> Seq<char> {
    match v {
        Some(s) => s,
        None => ""@,
    }
}

/// Whether a quoted `key` followed by optional spaces and a colon starts at
/// index `i` of the line.
pub open spec fn npm_marker_at(line: Seq<char>, key: Seq<char>, i: int) -> bool {
    &&& 0 <= i
    &&& i + key.len() + 2 <= line.len()
    &&& line[i] == '"'
    &&& line.subrange(i + 1, i + 1 + key.len()) == key
    &&& line[i + 1 + key.len()] == '"'
    &&& {
        let c = skip_spaces_spec(line, i + 2 + key.len());
        c < line.len() && line[c] == ':'
    }
}

/// Whether the line mentions the quoted section key followed by a colon.
pub open spec fn npm_section_match(line: Seq<char>, key: Seq<char>) -> bool {
    exists|i: int| #[trigger] npm_marker_at(line, key, i)
}

/// End of the run of non-double-quote characters starting at `i`.
pub open spec fn nondq_end_spec(s: Seq<char>, i: int) -> int
    decreases s.len() - i,
{
    if 0 <= i < s.len() && s[i] != '"' {
        nondq_end_spec(s, i + 1)
    } else {
        i
    }
}

proof fn lemma_nondq_end_bounds(s: Seq<char>, i: int)
    requires
        0 <= i <= s.len(),
    ensures
        i <= nondq_end_spec(s, i) <= s.len(),
    decreases s.len() - i,
{
    if i < s.len() && s[i] != '"' {
        lemma_nondq_end_bounds(s, i + 1);
    }
}

fn nondq_end(v: &Vec<char>, from: usize) -> (r: usize)
    requires
        from <= v@.len(),
    ensures
        r == nondq_end_spec(v@, from as int),
        from <= r <= v@.len(),
    decreases v@.len() - from,
{
    proof {
        lemma_nondq_end_bounds(v@, from as int);
    }
    if from < v.len() && v[from] != '"' {
        nondq_end(v, from + 1)
    } else {
        from
    }
}

/// The first quoted key followed by optional spaces and a colon at or after
/// position `i`: the capture of the entry pattern.
pub open spec fn npm_key_at(line: Seq<char>, i: int) -> Option<Seq<char>> {
    if !(0 <= i < line.len() && line[i] == '"') {
        None
    } else {
        let e = nondq_end_spec(line, i + 1);
        if !(e > i + 1 && e < line.len() && line[e] == '"') {
            None
        } else {
            let c = skip_spaces_spec(line, e + 1);
            if c < line.len() && line[c] == ':' {
                Some(line.subrange(i + 1, e))
            } else {
                None
            }
        }
    }
}

pub open spec fn npm_first_key(line: Seq<char>, i: int) -> Option<Seq<char>>
    decreases line.len() - i,
{
    if !(0 <= i < line.len()) {
        None
    } else if npm_key_at(line, i) is Some {
        npm_key_at(line, i)
    } else {
        npm_first_key(line, i + 1)
    }
}

/// State of the line-number pass: whether the scan is inside the section,
/// the numbers of opening and closing braces seen since the section header,
/// and the (key, 1-indexed line) pairs found so far, later pairs
/// overriding earlier ones.
pub struct NpmLineState {
    pub in_section: bool,
    pub opens: int,
    pub closes: int,
    pub found: Seq<(Seq<char>, int)>,
}

/// One step of the line-number pass.
pub open spec fn npm_lines_step(
    line: Seq<char>,
    key: Seq<char>,
    st: NpmLineState,
    line_no: int,
) -> NpmLineState {
    if npm_section_match(line, key) {
        NpmLineState { in_section: true, opens: 0, closes: 0, found: st.found }
    } else if st.in_section {
        let o = st.opens + count_char_spec(line, '{');
        let c = st.closes + count_char_spec(line, '}');
        let m = match npm_first_key(line, 0) {
            Some(n) => st.found.push((n, line_no)),
            None => st.found,
        };
        let leave = o <= c && find_char_spec(line, '}', 0) < line.len();
        NpmLineState { in_section: !leave, opens: o, closes: c, found: m }
    } else {
        st
    }
}

/// The line-number pass over the first `lines.len()` lines.
pub open spec fn npm_line_scan(lines: Seq<Seq<char>>, key: Seq<char>) -> NpmLineState
    decreases lines.len(),
{
    if lines.len() == 0 {
        NpmLineState { in_section: false, opens: 0, closes: 0, found: Seq::empty() }
    } else {
        npm_lines_step(
            lines.last(),
            key,
            npm_line_scan(lines.drop_last(), key),
            lines.len() as int,
        )
    }
}

/// The line recorded for `name`, the last record winning; 0 where none
/// was recorded.
pub open spec fn npm_lookup(found: Seq<(Seq<char>, int)>, name: Seq<char>) -> int
    decreases found.len(),
{
    if found.len() == 0 {
        0
    } else if found.last().0 == name {
        found.last().1
    } else {
        npm_lookup(found.drop_last(), name)
    }
}

/// The view of the collected (key, line) pairs.
pub open spec fn found_view(a: Seq<(String, usize)>) -> Seq<(Seq<char>, int)> {
    a.map_values(|p: (String, usize)| (p.0@, p.1 as int))
}

/// The dependencies of one manifest section.
pub open spec fn npm_section_deps_spec(content: Seq<char>, key: Seq<char>) -> Seq<DepSpec> {
    match json_section_deps(content, key, "version"@) {
        None => Seq::empty(),
        Some(es) => es.map_values(
            |e: (Seq<char>, Option<Seq<char>>)|
                DepSpec {
                    name: e.0,
                    version_specifier: or_empty(e.1),
                    line_number: npm_lookup(npm_line_scan(lines_spec(content), key).found, e.0),
                },
        ),
    }
}

/// All dependencies a `package.json` text declares, section by section.
pub open spec fn npm_deps_spec(content: Seq<char>) -> Seq<DepSpec> {
    npm_section_deps_spec(content, "dependencies"@) + npm_section_deps_spec(
        content,
        "devDependencies"@,
    ) + npm_section_deps_spec(content, "peerDependencies"@)
}

/// Brace counters of the line pass stay within the total length of the
/// lines.
proof fn lemma_npm_scan_bounds(lines: Seq<Seq<char>>, key: Seq<char>)
    ensures
        0 <= npm_line_scan(lines, key).opens <= sum_lens(lines),
        0 <= npm_line_scan(lines, key).closes <= sum_lens(lines),
    decreases lines.len(),
{
    if lines.len() == 0 {
    } else {
        lemma_npm_scan_bounds(lines.drop_last(), key);
        lemma_count_char_bound(lines.last(), '{');
        lemma_count_char_bound(lines.last(), '}');
        lemma_sum_lens_nonneg(lines.drop_last());
    }
}

pub struct NpmParser;

impl NpmParser {
    /// The manifest key of a dependency section.
    pub fn section_key(section: &DependencySection) -> (r: &'static str)
        ensures
            section is Dependencies ==> r@ == "dependencies"@,
            section is DevDependencies ==> r@ == "devDependencies"@,
            section is PeerDependencies ==> r@ == "peerDependencies"@,
    {
        match section {
            DependencySection::Dependencies => "dependencies",
            DependencySection::DevDependencies => "devDependencies",
            DependencySection::PeerDependencies => "peerDependencies",
        }
    }

    /// Extracts the dependencies of a `package.json` text; fails exactly on
    /// malformed JSON, with the JSON parser's message.
    pub fn parse_content(&self, content: &str) -> (r: Result<Vec<Dependency>, ParseError>)
        ensures
            r is Ok <==> json_ok(content@),
            r matches Ok(deps) ==> deps.deep_view() == npm_deps_spec(content@),
            r matches Err(e) ==> e.message@ == json_err_msg(content@),
    {
        let chars = chars_of(content);
        let all_lines = split_lines(&chars);
        let mut deps: Vec<Dependency> = Vec::new();
        proof {
            assert(deps.deep_view() =~= Seq::<DepSpec>::empty());
        }
        match Self::push_section(&mut deps, content, &chars, &all_lines, Self::section_key(&DependencySection::Dependencies)) {
            Ok(()) => {},
            Err(m) => {
                return Err(ParseError { message: m });
            },
        }
        match Self::push_section(&mut deps, content, &chars, &all_lines, Self::section_key(&DependencySection::DevDependencies)) {
            Ok(()) => {},
            Err(m) => {
                return Err(ParseError { message: m });
            },
        }
        match Self::push_section(&mut deps, content, &chars, &all_lines, Self::section_key(&DependencySection::PeerDependencies)) {
            Ok(()) => {},
            Err(m) => {
                return Err(ParseError { message: m });
            },
        }
        proof {
            assert(deps.deep_view() =~= npm_deps_spec(content@));
        }
        Ok(deps)
    }

    /// Appends one section's dependencies to the collected list.
    fn push_section(
        deps: &mut Vec<Dependency>,
        content: &str,
        chars: &Vec<char>,
        all_lines: &Vec<Vec<char>>,
        key: &str,
    ) -> (r: Result<(), String>)
        requires
            chars@ == content@,
            all_lines.deep_view() == lines_spec(content@),
        ensures
            r is Ok <==> json_ok(content@),
            r is Ok ==> final(deps).deep_view() == old(deps).deep_view() + npm_section_deps_spec(
                content@,
                key@,
            ),
            r matches Err(m) ==> m@ == json_err_msg(content@),
    {
        let found = Self::line_numbers(chars, all_lines, key);
        let entries = match json_dep_entries(content, key, "version") {
            Ok(o) => o,
            Err(m) => {
                return Err(m);
            },
        };
        let ghost prefix = deps.deep_view();
        match entries {
            None => {
                proof {
                    assert(deps.deep_view() =~= prefix + npm_section_deps_spec(content@, key@));
                }
            },
            Some(es) => {
                let ghost es_view = es.deep_view();
                let ghost fm = npm_line_scan(lines_spec(content@), key@).found;
                let ghost f = |e: (Seq<char>, Option<Seq<char>>)|
                    DepSpec {
                        name: e.0,
                        version_specifier: or_empty(e.1),
                        line_number: npm_lookup(fm, e.0),
                    };
                let mut i: usize = 0;
                proof {
                    assert(prefix + es_view.take(0).map_values(f) =~= prefix);
                }
                while i < es.len()
                    invariant
                        i <= es@.len(),
                        es.deep_view() == es_view,
                        es@.len() == es_view.len(),
                        found_view(found@) == fm,
                        deps.deep_view() == prefix + es_view.take(i as int).map_values(f),
                        f == (|e: (Seq<char>, Option<Seq<char>>)|
                            DepSpec {
                                name: e.0,
                                version_specifier: or_empty(e.1),
                                line_number: npm_lookup(fm, e.0),
                            }),
                    decreases es@.len() - i,
                {
                    let name = es[i].0.clone();
                    let spec_opt = es[i].1.clone();
                    proof {
                        let ghost entry = es@[i as int];
                        assert(es_view[i as int] == (entry.0@, entry.1.deep_view()));
                    }
                    let version = match spec_opt {
                        Some(s) => s,
                        None => "".to_owned(),
                    };
                    let line_number = Self::lookup(&found, name.as_str());
                    let dep = Dependency { name, version_specifier: version, line_number };
                    let ghost old_deps = deps.deep_view();
                    let ghost dep_view = dep@;
                    deps.push(dep);
                    proof {
                        assert(deps.deep_view() =~= old_deps.push(dep_view));
                        assert(es_view.take(i + 1 as int).map_values(f) =~= es_view.take(
                            i as int,
                        ).map_values(f).push(f(es_view[i as int])));
                        assert(dep_view == f(es_view[i as int]));
                    }
                    i = i + 1;
                }
                proof {
                    assert(es_view.take(es_view.len() as int) =~= es_view);
                }
            },
        }
        Ok(())
    }

    /// The line recorded for `name`, the last record winning; 0 where none
    /// was.
    fn lookup(found: &Vec<(String, usize)>, name: &str) -> (r: usize)
        ensures
            r == npm_lookup(found_view(found@), name@),
    {
        let mut k: usize = found.len();
        proof {
            assert(found_view(found@).take(k as int) =~= found_view(found@));
        }
        while k > 0
            invariant
                k <= found@.len(),
                npm_lookup(found_view(found@), name@) == npm_lookup(
                    found_view(found@).take(k as int),
                    name@,
                ),
            decreases k,
        {
            proof {
                let fv = found_view(found@);
                assert(fv.take(k as int).drop_last() =~= fv.take(k - 1 as int));
                assert(fv.take(k as int).last() == fv[k - 1]);
                assert(fv[k - 1] == (found@[k - 1].0@, found@[k - 1].1 as int));
            }
            if str_eq(found[k - 1].0.as_str(), name) {
                return found[k - 1].1;
            }
            k = k - 1;
        }
        proof {
            assert(found_view(found@).take(0) =~= Seq::<(Seq<char>, int)>::empty());
        }
        0
    }

    /// The line-oriented pass that locates the 1-indexed source line of
    /// each key inside the section named `key`.
    fn line_numbers(chars: &Vec<char>, all_lines: &Vec<Vec<char>>, key: &str) -> (r: Vec<
        (String, usize),
    >)
        requires
            all_lines.deep_view() == lines_spec(chars@),
        ensures
            found_view(r@) == npm_line_scan(all_lines.deep_view(), key@).found,
    {
        let ghost ls = all_lines.deep_view();
        let total = chars.len();
        proof {
            lemma_lines_spec_sum(chars@);
        }
        let mut found: Vec<(String, usize)> = Vec::new();
        let mut in_section = false;
        let mut opens: usize = 0;
        let mut closes: usize = 0;
        let mut idx: usize = 0;
        proof {
            assert(ls.take(0) =~= Seq::<Seq<char>>::empty());
            assert(found_view(found@) =~= Seq::<(Seq<char>, int)>::empty());
            assert(npm_line_scan(Seq::<Seq<char>>::empty(), key@).found =~= Seq::<
                (Seq<char>, int),
            >::empty());
        }
        while idx < all_lines.len()
            invariant
                idx <= all_lines@.len(),
                all_lines.deep_view() == ls,
                all_lines@.len() == ls.len(),
                sum_lens(ls) <= total,
                found_view(found@) == npm_line_scan(ls.take(idx as int), key@).found,
                in_section == npm_line_scan(ls.take(idx as int), key@).in_section,
                opens == npm_line_scan(ls.take(idx as int), key@).opens,
                closes == npm_line_scan(ls.take(idx as int), key@).closes,
            decreases all_lines@.len() - idx,
        {
            let line = &all_lines[idx];
            proof {
                assert(line@ == ls[idx as int]);
                lemma_npm_scan_bounds(ls.take(idx as int), key@);
                lemma_npm_scan_bounds(ls.take(idx + 1 as int), key@);
                lemma_sum_lens_parts(ls, idx as int);
                lemma_sum_lens_parts(ls, idx + 1 as int);
                lemma_sum_lens_nonneg(ls.skip(idx as int));
                lemma_sum_lens_nonneg(ls.skip(idx + 1 as int));
                assert(ls.take(idx + 1 as int).drop_last() =~= ls.take(idx as int));
                assert(ls.take(idx + 1 as int).last() == ls[idx as int]);
                lemma_count_char_bound(line@, '{');
                lemma_count_char_bound(line@, '}');
            }
            if Self::section_match(line, key) {
                in_section = true;
                opens = 0;
                closes = 0;
            } else if in_section {
                let d_open = count_char(line, '{');
                let d_close = count_char(line, '}');
                opens = opens + d_open;
                closes = closes + d_close;
                match Self::first_key(line) {
                    Some(n) => {
                        let ghost old_found = found_view(found@);
                        found.push((n, idx + 1));
                        proof {
                            assert(found_view(found@) =~= old_found.push(
                                (found@[found@.len() - 1].0@, (idx + 1) as int),
                            ));
                        }
                    },
                    None => {},
                }
                let has_close = find_char(line, '}', 0) < line.len();
                if opens <= closes && has_close {
                    in_section = false;
                }
            }
            idx = idx + 1;
        }
        proof {
            assert(ls.take(idx as int) =~= ls);
        }
        found
    }

    /// Whether the line mentions the quoted section key followed by a
    /// colon.
    fn section_match(line: &Vec<char>, key: &str) -> (r: bool)
        ensures
            r == npm_section_match(line@, key@),
    {
        let mut i: usize = 0;
        while i < line.len()
            invariant
                i <= line@.len(),
                forall|j: int| 0 <= j < i ==> !npm_marker_at(line@, key@, j),
            decreases line@.len() - i,
        {
            if Self::marker_at(line, key, i) {
                return true;
            }
            i = i + 1;
        }
        proof {
            if npm_section_match(line@, key@) {
                let w = choose|j: int| npm_marker_at(line@, key@, j);
                assert(w + key@.len() + 2 <= line@.len());
                assert(0 <= w < line@.len());
                assert(false);
            }
        }
        false
    }

    /// Whether the quoted key + colon marker starts at position `i`.
    fn marker_at(line: &Vec<char>, key: &str, i: usize) -> (r: bool)
        requires
            i <= line@.len(),
        ensures
            r == npm_marker_at(line@, key@, i as int),
    {
        let kl = key.unicode_len();
        let n = line.len();
        let rem = n - i;
        if rem < kl {
            return false;
        }
        if rem - kl < 2 {
            return false;
        }
        if line[i] != '"' {
            return false;
        }
        if !range_starts_with(line, i + 1, key) {
            proof {
                assert(line@.skip(i + 1 as int).subrange(0, kl as int) =~= line@.subrange(
                    i + 1,
                    i + 1 + kl as int,
                ));
            }
            return false;
        }
        proof {
            assert(line@.skip(i + 1 as int).subrange(0, kl as int) =~= line@.subrange(
                i + 1,
                i + 1 + kl as int,
            ));
        }
        if line[i + 1 + kl] != '"' {
            return false;
        }
        let c = skip_spaces(line, i + 2 + kl);
        c < n && line[c] == ':'
    }

    /// The first quoted key + colon capture of the line.
    fn first_key(line: &Vec<char>) -> (r: Option<String>)
        ensures
            r is Some <==> npm_first_key(line@, 0) is Some,
            r matches Some(p) ==> npm_first_key(line@, 0) matches Some(q) && p@ == q,
    {
        let mut i: usize = 0;
        while i < line.len()
            invariant
                i <= line@.len(),
                npm_first_key(line@, 0) == npm_first_key(line@, i as int),
            decreases line@.len() - i,
        {
            match Self::key_at(line, i) {
                Some(n) => {
                    return Some(n);
                },
                None => {},
            }
            i = i + 1;
        }
        None
    }

    /// The quoted key + colon capture at position `i`.
    fn key_at(line: &Vec<char>, i: usize) -> (r: Option<String>)
        requires
            i <= line@.len(),
        ensures
            r is Some <==> npm_key_at(line@, i as int) is Some,
            r matches Some(p) ==> npm_key_at(line@, i as int) matches Some(q) && p@ == q,
    {
        if !(i < line.len() && line[i] == '"') {
            return None;
        }
        let e = nondq_end(line, i + 1);
        if !(e > i + 1 && e < line.len() && line[e] == '"') {
            return None;
        }
        let c = skip_spaces(line, e + 1);
        if c < line.len() && line[c] == ':' {
            Some(string_of_range(line, i + 1, e))
        } else {
            None
        }
    }

    pub fn supports(&self, filename: &str) -> (r: bool)
        ensures
            r == (filename@ == "package.json"@),
    {
        str_eq(filename, "package.json")
    }
}

impl crate::parsers::PackageParser for NpmParser {
    fn parse(&self, content: &str) -> Result<Vec<Dependency>, ParseError> {
        self.parse_content(content)
    }

    fn supports_file(&self, filename: &str) -> bool {
        self.supports(filename)
    }
}

} // verus!

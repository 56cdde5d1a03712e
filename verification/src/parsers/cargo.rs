//! Parser for Cargo manifests (`Cargo.toml`).
//!
//! A structured TOML parse of the `dependencies`, `dev-dependencies` and
//! `build-dependencies` tables; a table-valued member uses its `version`
//! field and falls back to `*`. The source line of an entry is the first
//! line containing `name = `, with line 1 as the fallback.

use vstd::prelude::*;
use crate::text::{chars_of, find_line, find_line_spec, lines_spec, split_lines, str_eq};
use crate::toml_data::{toml_dep_table1, toml_deps1, toml_err_msg, toml_ok};
use crate::parsers::types::{Dependency, DepSpec, ParseError};
use vstd::string::StringExecFns;

verus! {

/// A table entry's version specifier: its string value, or `*` where it
/// had none.
pub open spec fn or_star(v: Option<Seq<char>>) -> Seq<char> {
    match v {
        Some(s) => s,
        None => "*"@,
    }
}

/// The 1-indexed line of the first manifest line containing `name = `,
/// or 1 where none does.
pub open spec fn cargo_line_of(lines: Seq<Seq<char>>, name: Seq<char>) -> int {
    match find_line_spec(lines, name + " = "@, 0) {
        Some(i) => i + 1,
        None => 1,
    }
}

/// The dependencies contributed by one section's entries.
pub open spec fn cargo_section_deps(lines: Seq<Seq<char>>, entries: Option<
    Seq<(Seq<char>, Option<Seq<char>>)>,
>) -> Seq<DepSpec> {
    match entries {
        None => Seq::empty(),
        Some(es) => es.map_values(
            |e: (Seq<char>, Option<Seq<char>>)|
                DepSpec {
                    name: e.0,
                    version_specifier: or_star(e.1),
                    line_number: cargo_line_of(lines, e.0),
                },
        ),
    }
}

/// All dependencies a `Cargo.toml` text declares, section by section.
pub open spec fn cargo_deps_spec(content: Seq<char>) -> Seq<DepSpec> {
    let lines = lines_spec(content);
    cargo_section_deps(lines, toml_deps1(content, "dependencies"@, "version"@))
        + cargo_section_deps(lines, toml_deps1(content, "dev-dependencies"@, "version"@))
        + cargo_section_deps(lines, toml_deps1(content, "build-dependencies"@, "version"@))
}

pub struct CargoParser;

impl CargoParser {
    pub fn new() -> (r: Self) {
        CargoParser
    }

    /// Extracts the dependencies of a `Cargo.toml` text; fails exactly on
    /// malformed TOML, with the TOML parser's message.
    pub fn parse_content(&self, content: &str) -> (r: Result<Vec<Dependency>, ParseError>)
        ensures
            r is Ok <==> toml_ok(content@),
            r matches Ok(deps) ==> deps.deep_view() == cargo_deps_spec(content@),
            r matches Err(e) ==> e.message@ == toml_err_msg(content@),
    {
        let chars = chars_of(content);
        let all_lines = split_lines(&chars);
        let ghost ls = lines_spec(content@);
        let mut deps: Vec<Dependency> = Vec::new();
        proof {
            assert(deps.deep_view() =~= Seq::<DepSpec>::empty());
        }
        let entries = match toml_dep_table1(content, "dependencies", "version") {
            Ok(o) => o,
            Err(m) => {
                return Err(ParseError { message: m });
            },
        };
        Self::push_section(&mut deps, &all_lines, entries, Ghost(ls));
        let entries = match toml_dep_table1(content, "dev-dependencies", "version") {
            Ok(o) => o,
            Err(m) => {
                return Err(ParseError { message: m });
            },
        };
        Self::push_section(&mut deps, &all_lines, entries, Ghost(ls));
        let entries = match toml_dep_table1(content, "build-dependencies", "version") {
            Ok(o) => o,
            Err(m) => {
                return Err(ParseError { message: m });
            },
        };
        Self::push_section(&mut deps, &all_lines, entries, Ghost(ls));
        proof {
            assert(deps.deep_view() =~= cargo_deps_spec(content@));
        }
        Ok(deps)
    }

    /// Appends one section's entries to the collected dependencies.
    fn push_section(
        deps: &mut Vec<Dependency>,
        all_lines: &Vec<Vec<char>>,
        entries: Option<Vec<(String, Option<String>)>>,
        Ghost(ls): Ghost<Seq<Seq<char>>>,
    )
        requires
            all_lines.deep_view() == ls,
        ensures
            final(deps).deep_view() == old(deps).deep_view() + cargo_section_deps(
                ls,
                entries.deep_view(),
            ),
    {
        let ghost prefix = deps.deep_view();
        match entries {
            None => {
                proof {
                    assert(deps.deep_view() =~= prefix + cargo_section_deps(
                        ls,
                        None::<Seq<(Seq<char>, Option<Seq<char>>)>>,
                    ));
                }
            },
            Some(es) => {
                let ghost es_view = es.deep_view();
                let mut i: usize = 0;
                proof {
                    assert(prefix + es_view.take(0).map_values(
                        |e: (Seq<char>, Option<Seq<char>>)|
                            DepSpec {
                                name: e.0,
                                version_specifier: or_star(e.1),
                                line_number: cargo_line_of(ls, e.0),
                            },
                    ) =~= prefix);
                }
                while i < es.len()
                    invariant
                        i <= es@.len(),
                        es.deep_view() == es_view,
                        es@.len() == es_view.len(),
                        all_lines.deep_view() == ls,
                        deps.deep_view() == prefix + es_view.take(i as int).map_values(
                            |e: (Seq<char>, Option<Seq<char>>)|
                                DepSpec {
                                    name: e.0,
                                    version_specifier: or_star(e.1),
                                    line_number: cargo_line_of(ls, e.0),
                                },
                        ),
                    decreases es@.len() - i,
                {
                    let name = es[i].0.clone();
                    let spec_opt = es[i].1.clone();
                    proof {
                        let ghost entry = es@[i as int];
                        assert(es_view[i as int] == (entry.0@, entry.1.deep_view()));
                    }
                    let version = match spec_opt {
                        Some(s) => s,
                        None => "*".to_owned(),
                    };
                    let mut needle = name.clone();
                    needle.append(" = ");
                    let nl = all_lines.len();
                    let line_number: usize = match find_line(all_lines, needle.as_str()) {
                        Some(j) => j + 1,
                        None => 1,
                    };
                    let dep = Dependency { name, version_specifier: version, line_number };
                    let ghost old_deps = deps.deep_view();
                    let ghost dep_view = dep@;
                    deps.push(dep);
                    proof {
                        assert(deps.deep_view() =~= old_deps.push(dep_view));
                        let f = |e: (Seq<char>, Option<Seq<char>>)|
                            DepSpec {
                                name: e.0,
                                version_specifier: or_star(e.1),
                                line_number: cargo_line_of(ls, e.0),
                            };
                        assert(es_view.take(i + 1 as int).map_values(f) =~= es_view.take(
                            i as int,
                        ).map_values(f).push(f(es_view[i as int])));
                        assert(dep_view == f(es_view[i as int]));
                    }
                    i = i + 1;
                }
                proof {
                    assert(es_view.take(es_view.len() as int) =~= es_view);
                }
            },
        }
    }

    pub fn supports(&self, filename: &str) -> (r: bool)
        ensures
            r == (filename@ == "Cargo.toml"@),
    {
        str_eq(filename, "Cargo.toml")
    }
}

impl crate::parsers::PackageParser for CargoParser {
    fn parse(&self, content: &str) -> Result<Vec<Dependency>, ParseError> {
        self.parse_content(content)
    }

    fn supports_file(&self, filename: &str) -> bool {
        self.supports(filename)
    }
}

impl Default for CargoParser {
    fn default() -> (r: Self) {
        CargoParser
    }
}

} // verus!

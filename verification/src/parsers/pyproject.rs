//! Parser for Python project manifests (`pyproject.toml`).
//!
//! Merges four sources: the PEP 621 `project.dependencies` key as a table
//! or as a string array, `project.optional-dependencies` grouped by extra
//! name, the legacy `tool.poetry.dependencies` table or array, and a
//! root-level `dependencies` table. Array entries are split at the first
//! requirement operator; entries of the later sources — the legacy Poetry
//! section and the root-level table — are dropped where the name was
//! already collected. Source lines are found by the first line containing
//! the dependency name.

use vstd::prelude::*;
use crate::text::{
    chars_of,
    find_line,
    find_line_spec,
    lines_spec,
    range_starts_with,
    split_lines,
    starts_with_spec,
    str_eq,
    string_of,
    sub_vec,
    trim_spec,
    trimmed,
};
use crate::toml_data::{
    toml_arr2,
    toml_arr3,
    toml_dep_table1,
    toml_dep_table2,
    toml_dep_table3,
    toml_deps1,
    toml_deps2,
    toml_deps3,
    toml_err_msg,
    toml_keys2,
    toml_ok,
    toml_string_array2,
    toml_string_array3,
    toml_table_keys2,
};
use crate::parsers::cargo::or_star;
use crate::parsers::types::{Dependency, DepSpec, ParseError, has_name, has_name_spec};

verus! {

/// The 1-indexed line of the first manifest line containing `name`, or 1
/// where none does.
pub open spec fn pyline(lines: Seq<Seq<char>>, name: Seq<char>) -> int {
    match find_line_spec(lines, name, 0) {
        Some(i) => i + 1,
        None => 1,
    }
}

/// The requirement operators a PEP 508-style entry is split at.
pub open spec fn is_req_op_char(c: char) -> bool {
    c == '>' || c == '<' || c == '=' || c == '~' || c == '^'
}

/// Index of the first requirement operator at or after `i`; `s.len()` if
/// none occurs.
pub open spec fn first_op_spec(s: Seq<char>, i: int) -> int
    decreases s.len() - i,
{
    if 0 <= i < s.len() {
        if is_req_op_char(s[i]) {
            i
        } else {
            first_op_spec(s, i + 1)
        }
    } else {
        i
    }
}

/// `s` with every leading repetition of the (non-empty) prefix `p`
/// removed.
pub open spec fn strip_reps_spec(s: Seq<char>, p: Seq<char>) -> Seq<char>
    decreases s.len(),
{
    if p.len() > 0 && starts_with_spec(s, p) {
        strip_reps_spec(s.skip(p.len() as int), p)
    } else {
        s
    }
}

/// The (name, specifier) split of one array entry: the text before the
/// first requirement operator, trimmed, is the name; the entry with the
/// name prefix stripped, trimmed, is the specifier. `None` when the entry
/// holds no operator.
pub open spec fn pep_item_spec(s: Seq<char>) -> Option<(Seq<char>, Seq<char>)> {
    let cut = first_op_spec(s, 0);
    if cut < s.len() {
        let name = trim_spec(s.take(cut));
        Some((name, trim_spec(strip_reps_spec(s, name))))
    } else {
        None
    }
}

/// A group suffix ` [group]` appended to a specifier, where present.
pub open spec fn with_suffix(v: Seq<char>, suffix: Option<Seq<char>>) -> Seq<char> {
    match suffix {
        Some(g) => v + " ["@ + g + "]"@,
        None => v,
    }
}

/// The dependencies of a table's entries, in order, each with an optional
/// group suffix.
pub open spec fn table_deps(
    lines: Seq<Seq<char>>,
    entries: Option<Seq<(Seq<char>, Option<Seq<char>>)>>,
    suffix: Option<Seq<char>>,
) -> Seq<DepSpec> {
    match entries {
        None => Seq::empty(),
        Some(es) => es.map_values(
            |e: (Seq<char>, Option<Seq<char>>)|
                DepSpec {
                    name: e.0,
                    version_specifier: with_suffix(or_star(e.1), suffix),
                    line_number: pyline(lines, e.0),
                },
        ),
    }
}

/// The dependencies of a string array's items: entries with an operator
/// are split; where `allow_bare` holds, an entry without one contributes
/// the whole text as name with the wildcard specifier.
pub open spec fn array_deps(
    lines: Seq<Seq<char>>,
    items: Seq<Option<Seq<char>>>,
    suffix: Option<Seq<char>>,
    allow_bare: bool,
) -> Seq<DepSpec>
    decreases items.len(),
{
    if items.len() == 0 {
        Seq::empty()
    } else {
        let prev = array_deps(lines, items.drop_last(), suffix, allow_bare);
        match items.last() {
            None => prev,
            Some(s) => match pep_item_spec(s) {
                Some(nv) => prev.push(
                    DepSpec {
                        name: nv.0,
                        version_specifier: with_suffix(nv.1, suffix),
                        line_number: pyline(lines, nv.0),
                    },
                ),
                None => if allow_bare {
                    prev.push(
                        DepSpec {
                            name: s,
                            version_specifier: "*"@,
                            line_number: pyline(lines, s),
                        },
                    )
                } else {
                    prev
                },
            },
        }
    }
}

/// The dependencies contributed by one optional-dependency group.
pub open spec fn group_deps(content: Seq<char>, lines: Seq<Seq<char>>, g: Seq<char>) -> Seq<
    DepSpec,
> {
    match toml_deps3(content, "project"@, "optional-dependencies"@, g, "version"@) {
        Some(es) => table_deps(lines, Some(es), Some(g)),
        None => match toml_arr3(content, "project"@, "optional-dependencies"@, g) {
            Some(items) => array_deps(lines, items, Some(g), false),
            None => Seq::empty(),
        },
    }
}

/// The dependencies of all optional-dependency groups, in group order.
pub open spec fn groups_deps(content: Seq<char>, lines: Seq<Seq<char>>, gs: Seq<Seq<char>>) -> Seq<
    DepSpec,
>
    decreases gs.len(),
{
    if gs.len() == 0 {
        Seq::empty()
    } else {
        groups_deps(content, lines, gs.drop_last()) + group_deps(content, lines, gs.last())
    }
}

/// A later source's table entries appended to `deps`, keeping only fresh
/// names: the legacy Poetry table and the root-level table merge this way.
pub open spec fn dedup_table_fold(
    lines: Seq<Seq<char>>,
    deps: Seq<DepSpec>,
    es: Seq<(Seq<char>, Option<Seq<char>>)>,
) -> Seq<DepSpec>
    decreases es.len(),
{
    if es.len() == 0 {
        deps
    } else {
        let prev = dedup_table_fold(lines, deps, es.drop_last());
        let e = es.last();
        if has_name_spec(prev, e.0) {
            prev
        } else {
            prev.push(
                DepSpec {
                    name: e.0,
                    version_specifier: or_star(e.1),
                    line_number: pyline(lines, e.0),
                },
            )
        }
    }
}

/// The legacy Poetry array items appended to `deps`, keeping only fresh
/// names of entries that hold an operator.
pub open spec fn dedup_array_fold(
    lines: Seq<Seq<char>>,
    deps: Seq<DepSpec>,
    items: Seq<Option<Seq<char>>>,
) -> Seq<DepSpec>
    decreases items.len(),
{
    if items.len() == 0 {
        deps
    } else {
        let prev = dedup_array_fold(lines, deps, items.drop_last());
        match items.last() {
            None => prev,
            Some(s) => match pep_item_spec(s) {
                Some(nv) => if has_name_spec(prev, nv.0) {
                    prev
                } else {
                    prev.push(
                        DepSpec {
                            name: nv.0,
                            version_specifier: nv.1,
                            line_number: pyline(lines, nv.0),
                        },
                    )
                },
                None => prev,
            },
        }
    }
}

/// All dependencies a `pyproject.toml` text declares, source by source.
pub open spec fn pyproject_deps_spec(content: Seq<char>) -> Seq<DepSpec> {
    let lines = lines_spec(content);
    let p1 = table_deps(lines, toml_deps2(content, "project"@, "dependencies"@, "version"@), None);
    let p2 = p1 + match toml_arr2(content, "project"@, "dependencies"@) {
        Some(items) => array_deps(lines, items, None, true),
        None => Seq::empty(),
    };
    let p3 = p2 + match toml_keys2(content, "project"@, "optional-dependencies"@) {
        Some(gs) => groups_deps(content, lines, gs),
        None => Seq::empty(),
    };
    let p4 = match toml_deps3(content, "tool"@, "poetry"@, "dependencies"@, "version"@) {
        Some(es) => dedup_table_fold(lines, p3, es),
        None => match toml_arr3(content, "tool"@, "poetry"@, "dependencies"@) {
            Some(items) => dedup_array_fold(lines, p3, items),
            None => p3,
        },
    };
    match toml_deps1(content, "dependencies"@, "version"@) {
        Some(es) => dedup_table_fold(lines, p4, es),
        None => p4,
    }
}

pub struct PyProjectParser;

impl PyProjectParser {
    pub fn new() -> (r: Self) {
        PyProjectParser
    }

    /// Extracts the dependencies of a `pyproject.toml` text; fails exactly
    /// on malformed TOML, with the TOML parser's message.
    pub fn parse_content(&self, content: &str) -> (r: Result<Vec<Dependency>, ParseError>)
        ensures
            r is Ok <==> toml_ok(content@),
            r matches Ok(deps) ==> deps.deep_view() == pyproject_deps_spec(content@),
            r matches Err(e) ==> e.message@ == toml_err_msg(content@),
    {
        let chars = chars_of(content);
        let all_lines = split_lines(&chars);
        let ghost ls = lines_spec(content@);
        let mut deps: Vec<Dependency> = Vec::new();
        proof {
            assert(deps.deep_view() =~= Seq::<DepSpec>::empty());
        }
        // PEP 621 table form
        let entries = match toml_dep_table2(content, "project", "dependencies", "version") {
            Ok(o) => o,
            Err(m) => {
                return Err(ParseError { message: m });
            },
        };
        Self::push_table(&mut deps, &all_lines, entries, None, Ghost(ls));
        // PEP 621 array form
        let items = match toml_string_array2(content, "project", "dependencies") {
            Ok(o) => o,
            Err(m) => {
                return Err(ParseError { message: m });
            },
        };
        match items {
            Some(items) => Self::push_array(&mut deps, &all_lines, items, None, true, Ghost(ls)),
            None => {},
        }
        // optional dependencies, grouped by extra name
        let groups = match toml_table_keys2(content, "project", "optional-dependencies") {
            Ok(o) => o,
            Err(m) => {
                return Err(ParseError { message: m });
            },
        };
        match groups {
            None => {},
            Some(gs) => {
                let ghost gs_view = gs.deep_view();
                let ghost base = deps.deep_view();
                let mut gi: usize = 0;
                proof {
                    assert(groups_deps(content@, ls, gs_view.take(0)) =~= Seq::<DepSpec>::empty());
                    assert(deps.deep_view() =~= base + groups_deps(
                        content@,
                        ls,
                        gs_view.take(0),
                    ));
                }
                while gi < gs.len()
                    invariant
                        gi <= gs@.len(),
                        gs.deep_view() == gs_view,
                        gs@.len() == gs_view.len(),
                        all_lines.deep_view() == ls,
                        ls == lines_spec(content@),
                        toml_ok(content@),
                        deps.deep_view() == base + groups_deps(
                            content@,
                            ls,
                            gs_view.take(gi as int),
                        ),
                    decreases gs@.len() - gi,
                {
                    let g = &gs[gi];
                    proof {
                        assert(g@ == gs_view[gi as int]);
                    }
                    let g_entries = match toml_dep_table3(
                        content,
                        "project",
                        "optional-dependencies",
                        g.as_str(),
                        "version",
                    ) {
                        Ok(o) => o,
                        Err(m) => {
                            return Err(ParseError { message: m });
                        },
                    };
                    let ghost before = deps.deep_view();
                    match g_entries {
                        Some(es) => {
                            Self::push_table(
                                &mut deps,
                                &all_lines,
                                Some(es),
                                Some(g.as_str()),
                                Ghost(ls),
                            );
                        },
                        None => {
                            let g_items = match toml_string_array3(
                                content,
                                "project",
                                "optional-dependencies",
                                g.as_str(),
                            ) {
                                Ok(o) => o,
                                Err(m) => {
                                    return Err(ParseError { message: m });
                                },
                            };
                            match g_items {
                                Some(items) => Self::push_array(
                                    &mut deps,
                                    &all_lines,
                                    items,
                                    Some(g.as_str()),
                                    false,
                                    Ghost(ls),
                                ),
                                None => {},
                            }
                        },
                    }
                    proof {
                        assert(gs_view.take(gi + 1 as int).drop_last() =~= gs_view.take(
                            gi as int,
                        ));
                        assert(gs_view.take(gi + 1 as int).last() == gs_view[gi as int]);
                        assert(deps.deep_view() =~= base + groups_deps(
                            content@,
                            ls,
                            gs_view.take(gi + 1 as int),
                        ));
                    }
                    gi = gi + 1;
                }
                proof {
                    assert(gs_view.take(gs_view.len() as int) =~= gs_view);
                }
            },
        }
        // legacy Poetry section
        let poetry_entries = match toml_dep_table3(content, "tool", "poetry", "dependencies",
            "version") {
            Ok(o) => o,
            Err(m) => {
                return Err(ParseError { message: m });
            },
        };
        match poetry_entries {
            Some(es) => {
                Self::push_dedup_table(&mut deps, &all_lines, es, Ghost(ls));
            },
            None => {
                let poetry_items = match toml_string_array3(content, "tool", "poetry",
                    "dependencies") {
                    Ok(o) => o,
                    Err(m) => {
                        return Err(ParseError { message: m });
                    },
                };
                match poetry_items {
                    Some(items) => Self::push_dedup_array(&mut deps, &all_lines, items, Ghost(ls)),
                    None => {},
                }
            },
        }
        // root-level dependencies table, a later source: only fresh names
        let root_entries = match toml_dep_table1(content, "dependencies", "version") {
            Ok(o) => o,
            Err(m) => {
                return Err(ParseError { message: m });
            },
        };
        match root_entries {
            Some(es) => {
                Self::push_dedup_table(&mut deps, &all_lines, es, Ghost(ls));
            },
            None => {},
        }
        proof {
            assert(deps.deep_view() =~= pyproject_deps_spec(content@));
        }
        Ok(deps)
    }

    /// Appends a table's entries to the collected dependencies.
    fn push_table(
        deps: &mut Vec<Dependency>,
        all_lines: &Vec<Vec<char>>,
        entries: Option<Vec<(String, Option<String>)>>,
        suffix: Option<&str>,
        Ghost(ls): Ghost<Seq<Seq<char>>>,
    )
        requires
            all_lines.deep_view() == ls,
        ensures
            final(deps).deep_view() == old(deps).deep_view() + table_deps(
                ls,
                entries.deep_view(),
                suffix.deep_view(),
            ),
    {
        let ghost prefix = deps.deep_view();
        let ghost sfx = suffix.deep_view();
        match entries {
            None => {
                proof {
                    assert(deps.deep_view() =~= prefix + table_deps(
                        ls,
                        None::<Seq<(Seq<char>, Option<Seq<char>>)>>,
                        sfx,
                    ));
                }
            },
            Some(es) => {
                let ghost es_view = es.deep_view();
                let ghost f = |e: (Seq<char>, Option<Seq<char>>)|
                    DepSpec {
                        name: e.0,
                        version_specifier: with_suffix(or_star(e.1), sfx),
                        line_number: pyline(ls, e.0),
                    };
                let mut i: usize = 0;
                proof {
                    assert(prefix + es_view.take(0).map_values(f) =~= prefix);
                }
                while i < es.len()
                    invariant
                        i <= es@.len(),
                        es.deep_view() == es_view,
                        es@.len() == es_view.len(),
                        all_lines.deep_view() == ls,
                        sfx == suffix.deep_view(),
                        suffix matches Some(g) ==> sfx == Some(g@),
                        suffix is None ==> sfx is None,
                        deps.deep_view() == prefix + es_view.take(i as int).map_values(f),
                        f == (|e: (Seq<char>, Option<Seq<char>>)|
                            DepSpec {
                                name: e.0,
                                version_specifier: with_suffix(or_star(e.1), sfx),
                                line_number: pyline(ls, e.0),
                            }),
                    decreases es@.len() - i,
                {
                    let name = es[i].0.clone();
                    let spec_opt = es[i].1.clone();
                    proof {
                        let ghost entry = es@[i as int];
                        assert(es_view[i as int] == (entry.0@, entry.1.deep_view()));
                    }
                    let base = match spec_opt {
                        Some(s) => s,
                        None => "*".to_owned(),
                    };
                    let version = Self::suffixed(base, suffix);
                    let line_number = Self::line_of(all_lines, name.as_str());
                    let dep = Dependency { name, version_specifier: version, line_number };
                    let ghost old_deps = deps.deep_view();
                    let ghost dep_view = dep@;
                    deps.push(dep);
                    proof {
                        assert(deps.deep_view() =~= old_deps.push(dep_view));
                        assert(es_view.take(i + 1 as int).map_values(f) =~= es_view.take(
                            i as int,
                        ).map_values(f).push(f(es_view[i as int])));
                        assert(dep_view == f(es_view[i as int]));
                    }
                    i = i + 1;
                }
                proof {
                    assert(es_view.take(es_view.len() as int) =~= es_view);
                }
            },
        }
    }

    /// Appends a string array's items to the collected dependencies.
    fn push_array(
        deps: &mut Vec<Dependency>,
        all_lines: &Vec<Vec<char>>,
        items: Vec<Option<String>>,
        suffix: Option<&str>,
        allow_bare: bool,
        Ghost(ls): Ghost<Seq<Seq<char>>>,
    )
        requires
            all_lines.deep_view() == ls,
        ensures
            final(deps).deep_view() == old(deps).deep_view() + array_deps(
                ls,
                items.deep_view(),
                suffix.deep_view(),
                allow_bare,
            ),
    {
        let ghost prefix = deps.deep_view();
        let ghost sfx = suffix.deep_view();
        let ghost items_view = items.deep_view();
        let mut i: usize = 0;
        proof {
            assert(array_deps(ls, items_view.take(0), sfx, allow_bare) =~= Seq::<
                DepSpec,
            >::empty());
            assert(deps.deep_view() =~= prefix + array_deps(
                ls,
                items_view.take(0),
                sfx,
                allow_bare,
            ));
        }
        while i < items.len()
            invariant
                i <= items@.len(),
                items.deep_view() == items_view,
                items@.len() == items_view.len(),
                all_lines.deep_view() == ls,
                sfx == suffix.deep_view(),
                suffix matches Some(g) ==> sfx == Some(g@),
                suffix is None ==> sfx is None,
                deps.deep_view() == prefix + array_deps(
                    ls,
                    items_view.take(i as int),
                    sfx,
                    allow_bare,
                ),
            decreases items@.len() - i,
        {
            proof {
                let ghost item = items@[i as int];
                assert(items_view[i as int] == item.deep_view());
                assert(items_view.take(i + 1 as int).drop_last() =~= items_view.take(i as int));
                assert(items_view.take(i + 1 as int).last() == items_view[i as int]);
            }
            let item = match &items[i] {
                Some(s) => Some(s.clone()),
                None => None,
            };
            match item {
                None => {},
                Some(s) => {
                    let sv = chars_of(s.as_str());
                    match Self::pep_item(&sv) {
                        Some(nv) => {
                            let version = Self::suffixed(nv.1, suffix);
                            let line_number = Self::line_of(all_lines, nv.0.as_str());
                            let dep = Dependency {
                                name: nv.0,
                                version_specifier: version,
                                line_number,
                            };
                            let ghost old_deps = deps.deep_view();
                            let ghost dep_view = dep@;
                            deps.push(dep);
                            proof {
                                assert(deps.deep_view() =~= old_deps.push(dep_view));
                            }
                        },
                        None => {
                            if allow_bare {
                                let line_number = Self::line_of(all_lines, s.as_str());
                                let dep = Dependency {
                                    name: s,
                                    version_specifier: "*".to_owned(),
                                    line_number,
                                };
                                let ghost old_deps = deps.deep_view();
                                let ghost dep_view = dep@;
                                deps.push(dep);
                                proof {
                                    assert(deps.deep_view() =~= old_deps.push(dep_view));
                                }
                            }
                        },
                    }
                },
            }
            i = i + 1;
        }
        proof {
            assert(items_view.take(items_view.len() as int) =~= items_view);
        }
    }

    /// Appends a later source's table entries, keeping only fresh names.
    fn push_dedup_table(
        deps: &mut Vec<Dependency>,
        all_lines: &Vec<Vec<char>>,
        es: Vec<(String, Option<String>)>,
        Ghost(ls): Ghost<Seq<Seq<char>>>,
    )
        requires
            all_lines.deep_view() == ls,
        ensures
            final(deps).deep_view() == dedup_table_fold(ls, old(deps).deep_view(), es.deep_view()),
    {
        let ghost base = deps.deep_view();
        let ghost es_view = es.deep_view();
        let mut i: usize = 0;
        proof {
            assert(dedup_table_fold(ls, base, es_view.take(0)) == base) by {
                assert(es_view.take(0) =~= Seq::<(Seq<char>, Option<Seq<char>>)>::empty());
            }
        }
        while i < es.len()
            invariant
                i <= es@.len(),
                es.deep_view() == es_view,
                es@.len() == es_view.len(),
                all_lines.deep_view() == ls,
                deps.deep_view() == dedup_table_fold(ls, base, es_view.take(i as int)),
            decreases es@.len() - i,
        {
            proof {
                let ghost entry = es@[i as int];
                assert(es_view[i as int] == (entry.0@, entry.1.deep_view()));
                assert(es_view.take(i + 1 as int).drop_last() =~= es_view.take(i as int));
                assert(es_view.take(i + 1 as int).last() == es_view[i as int]);
            }
            let name = es[i].0.clone();
            let spec_opt = es[i].1.clone();
            if !has_name(deps, name.as_str()) {
                let version = match spec_opt {
                    Some(s) => s,
                    None => "*".to_owned(),
                };
                let line_number = Self::line_of(all_lines, name.as_str());
                let dep = Dependency { name, version_specifier: version, line_number };
                let ghost old_deps = deps.deep_view();
                let ghost dep_view = dep@;
                deps.push(dep);
                proof {
                    assert(deps.deep_view() =~= old_deps.push(dep_view));
                }
            }
            i = i + 1;
        }
        proof {
            assert(es_view.take(es_view.len() as int) =~= es_view);
        }
    }

    /// Appends the legacy Poetry array items, keeping only fresh names of
    /// entries that hold an operator.
    fn push_dedup_array(
        deps: &mut Vec<Dependency>,
        all_lines: &Vec<Vec<char>>,
        items: Vec<Option<String>>,
        Ghost(ls): Ghost<Seq<Seq<char>>>,
    )
        requires
            all_lines.deep_view() == ls,
        ensures
            final(deps).deep_view() == dedup_array_fold(
                ls,
                old(deps).deep_view(),
                items.deep_view(),
            ),
    {
        let ghost base = deps.deep_view();
        let ghost items_view = items.deep_view();
        let mut i: usize = 0;
        proof {
            assert(dedup_array_fold(ls, base, items_view.take(0)) == base) by {
                assert(items_view.take(0) =~= Seq::<Option<Seq<char>>>::empty());
            }
        }
        while i < items.len()
            invariant
                i <= items@.len(),
                items.deep_view() == items_view,
                items@.len() == items_view.len(),
                all_lines.deep_view() == ls,
                deps.deep_view() == dedup_array_fold(ls, base, items_view.take(i as int)),
            decreases items@.len() - i,
        {
            proof {
                let ghost item = items@[i as int];
                assert(items_view[i as int] == item.deep_view());
                assert(items_view.take(i + 1 as int).drop_last() =~= items_view.take(i as int));
                assert(items_view.take(i + 1 as int).last() == items_view[i as int]);
            }
            let item = match &items[i] {
                Some(s) => Some(s.clone()),
                None => None,
            };
            match item {
                None => {},
                Some(s) => {
                    let sv = chars_of(s.as_str());
                    match Self::pep_item(&sv) {
                        Some(nv) => {
                            if !has_name(deps, nv.0.as_str()) {
                                let line_number = Self::line_of(all_lines, nv.0.as_str());
                                let dep = Dependency {
                                    name: nv.0,
                                    version_specifier: nv.1,
                                    line_number,
                                };
                                let ghost old_deps = deps.deep_view();
                                let ghost dep_view = dep@;
                                deps.push(dep);
                                proof {
                                    assert(deps.deep_view() =~= old_deps.push(dep_view));
                                }
                            }
                        },
                        None => {},
                    }
                },
            }
            i = i + 1;
        }
        proof {
            assert(items_view.take(items_view.len() as int) =~= items_view);
        }
    }

    /// The (name, specifier) split of one array entry.
    fn pep_item(s: &Vec<char>) -> (r: Option<(String, String)>)
        ensures
            r is Some <==> pep_item_spec(s@) is Some,
            r matches Some(p) ==> pep_item_spec(s@) matches Some(q) && p.0@ == q.0 && p.1@ == q.1,
    {
        let cut = Self::first_op(s, 0);
        if cut >= s.len() {
            return None;
        }
        let head = sub_vec(s, 0, cut);
        proof {
            assert(head@ =~= s@.take(cut as int));
        }
        let name_v = trimmed(&head);
        let name = string_of(&name_v);
        // strip leading repetitions of the name
        let n = s.len();
        let mut k: usize = 0;
        proof {
            assert(s@.skip(0) =~= s@);
        }
        while name_v.len() > 0 && range_starts_with(s, k, name.as_str())
            invariant
                k <= n == s@.len(),
                name@ == name_v@,
                strip_reps_spec(s@, name@) == strip_reps_spec(s@.skip(k as int), name@),
            decreases s@.len() - k,
        {
            proof {
                assert(s@.skip(k as int).skip(name@.len() as int) =~= s@.skip(
                    k + name@.len() as int,
                ));
            }
            k = k + name_v.len();
        }
        proof {
            if name_v.len() > 0 {
                assert(strip_reps_spec(s@.skip(k as int), name@) == s@.skip(k as int));
            } else {
                assert(strip_reps_spec(s@, name@) == s@);
                assert(s@.skip(0) =~= s@);
            }
        }
        let tail = sub_vec(s, k, s.len());
        proof {
            assert(tail@ =~= s@.skip(k as int));
        }
        let ver_v = trimmed(&tail);
        Some((name, string_of(&ver_v)))
    }

    /// Index of the first requirement operator at or after `from`.
    fn first_op(s: &Vec<char>, from: usize) -> (r: usize)
        requires
            from <= s@.len(),
        ensures
            r == first_op_spec(s@, from as int),
            from <= r <= s@.len(),
        decreases s@.len() - from,
    {
        if from < s.len() {
            let c = s[from];
            if c == '>' || c == '<' || c == '=' || c == '~' || c == '^' {
                from
            } else {
                Self::first_op(s, from + 1)
            }
        } else {
            from
        }
    }

    /// A specifier with the optional group suffix appended.
    fn suffixed(base: String, suffix: Option<&str>) -> (r: String)
        ensures
            r@ == with_suffix(base@, suffix.deep_view()),
    {
        match suffix {
            None => base,
            Some(g) => {
                let mut s = base;
                s.append(" [");
                s.append(g);
                s.append("]");
                s
            },
        }
    }

    /// The 1-indexed first line containing `name`, or 1.
    fn line_of(all_lines: &Vec<Vec<char>>, name: &str) -> (r: usize)
        ensures
            r == pyline(all_lines.deep_view(), name@),
    {
        let nl = all_lines.len();
        match find_line(all_lines, name) {
            Some(j) => j + 1,
            None => 1,
        }
    }

    pub fn supports(&self, filename: &str) -> (r: bool)
        ensures
            r == (filename@ == "pyproject.toml"@),
    {
        str_eq(filename, "pyproject.toml")
    }
}

impl crate::parsers::PackageParser for PyProjectParser {
    fn parse(&self, content: &str) -> Result<Vec<Dependency>, ParseError> {
        self.parse_content(content)
    }

    fn supports_file(&self, filename: &str) -> bool {
        self.supports(filename)
    }
}

impl Default for PyProjectParser {
    fn default() -> (r: Self) {
        PyProjectParser
    }
}

} // verus!

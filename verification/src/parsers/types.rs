//! Shared data types produced and consumed by the manifest parsers.

use vstd::prelude::*;

verus! {

/// One dependency entry extracted from a manifest: the package name, the
/// version-specifier text as written, and the 1-indexed source line.
#[derive(Debug, Clone)]
pub struct Dependency {
    pub name: String,
    pub version_specifier: String,
    pub line_number: usize,
}

/// Specification-level value of a [`Dependency`].
pub struct DepSpec {
    pub name: Seq<char>,
    pub version_specifier: Seq<char>,
    pub line_number: int,
}

impl View for Dependency {
    type V = DepSpec;

    open spec fn view(&self) -> DepSpec {
        DepSpec {
            name: self.name@,
            version_specifier: self.version_specifier@,
            line_number: self.line_number as int,
        }
    }
}

impl DeepView for Dependency {
    type V = DepSpec;

    open spec fn deep_view(&self) -> DepSpec {
        self.view()
    }
}

/// The manifest sections an npm manifest declares dependencies under.
pub enum DependencySection {
    Dependencies,
    DevDependencies,
    PeerDependencies,
}

/// Failure to parse a manifest whose format relies on structured syntax.
#[derive(Debug, Clone)]
pub struct ParseError {
    pub message: String,
}

impl ParseError {
    pub fn new(message: String) -> (r: Self)
        ensures
            r.message == message,
    {
        ParseError { message }
    }
}


/// Whether a dependency with name `n` was already collected.
pub open spec fn has_name_spec(deps: Seq<DepSpec>, n: Seq<char>) -> bool {
    exists|i: int| 0 <= i < deps.len() && (#[trigger] deps[i]).name == n
}

/// Whether the collected dependencies already hold one named `n`.
pub fn has_name(deps: &Vec<Dependency>, n: &str) -> (r: bool)
    ensures
        r == has_name_spec(deps.deep_view(), n@),
{
    let mut i: usize = 0;
    while i < deps.len()
        invariant
            i <= deps@.len(),
            forall|j: int| 0 <= j < i ==> (#[trigger] deps.deep_view()[j]).name != n@,
        decreases deps@.len() - i,
    {
        if crate::text::str_eq(deps[i].name.as_str(), n) {
            proof {
                assert(deps.deep_view()[i as int].name == n@);
            }
            return true;
        }
        i = i + 1;
    }
    false
}

} // verus!

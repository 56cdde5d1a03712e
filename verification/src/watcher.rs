//! The orchestrator: ties parsing, caching, debouncing, comparison and
//! annotation publishing together.
//!
//! A change event carries a file path and content. The watcher resolves
//! the file's basename, ignores files no parser claims, consults the
//! debouncer, and parses the content. Resolving each dependency's latest
//! version goes through the in-memory session cache; on a miss the host
//! performs the registry lookup — the only blocking step — and hands the
//! result back, so every decision around it is verified here.

use vstd::prelude::*;
use crate::badges::{Badge, BadgeStyle};
use crate::cache::sat_sub;
use crate::debouncer::{Debouncer, proceed_spec};
use crate::decorations::DecorationManager;
use crate::badges::BadgeSpec;
use crate::parsers::types::{Dependency, DepSpec, ParseError};
use crate::parsers::npm::{NpmParser, npm_deps_spec};
use crate::parsers::cargo::{CargoParser, cargo_deps_spec};
use crate::parsers::go::{GoParser, go_deps_spec};
use crate::parsers::pyproject::{PyProjectParser, pyproject_deps_spec};
use crate::parsers::gemfile::{GemfileParser, gemfile_deps_spec};
use crate::parsers::pubspec::{PubspecParser, pubspec_deps_spec};
use crate::json_data::{json_err_msg, json_ok};
use crate::toml_data::{toml_err_msg, toml_ok};
use crate::text::{chars_of, str_eq, string_of_range};
use crate::version::{VersionComparator, VersionComparison, VersionDiff, ComparisonSpec,
    compare_spec, display_text_spec};

verus! {

/// The manifest ecosystems the watcher dispatches on.
#[derive(Debug, Clone, Copy, PartialEq, Eq, Structural)]
pub enum ManifestKind {
    Npm,
    Cargo,
    Go,
    PyProject,
    Gemfile,
    Pubspec,
}

/// The parser claiming a file name, if any.
pub open spec fn kind_of(filename: Seq<char>) -> Option<ManifestKind> {
    if filename == "package.json"@ {
        Some(ManifestKind::Npm)
    } else if filename == "Cargo.toml"@ {
        Some(ManifestKind::Cargo)
    } else if filename == "go.mod"@ {
        Some(ManifestKind::Go)
    } else if filename == "pyproject.toml"@ {
        Some(ManifestKind::PyProject)
    } else if filename == "Gemfile"@ {
        Some(ManifestKind::Gemfile)
    } else if filename == "pubspec.yaml"@ || filename == "pubspec.yml"@ {
        Some(ManifestKind::Pubspec)
    } else {
        None
    }
}

/// What parsing a manifest of kind `k` yields: the dependency list, or the
/// structured parser's error message.
pub open spec fn parse_result_spec(k: ManifestKind, content: Seq<char>) -> Result<
    Seq<DepSpec>,
    Seq<char>,
> {
    match k {
        ManifestKind::Npm => if json_ok(content) {
            Ok(npm_deps_spec(content))
        } else {
            Err(json_err_msg(content))
        },
        ManifestKind::Cargo => if toml_ok(content) {
            Ok(cargo_deps_spec(content))
        } else {
            Err(toml_err_msg(content))
        },
        ManifestKind::PyProject => if toml_ok(content) {
            Ok(pyproject_deps_spec(content))
        } else {
            Err(toml_err_msg(content))
        },
        ManifestKind::Go => Ok(go_deps_spec(content)),
        ManifestKind::Gemfile => Ok(gemfile_deps_spec(content)),
        ManifestKind::Pubspec => Ok(pubspec_deps_spec(content)),
    }
}

/// Index right after the last `/` among the first `i` characters; 0 where
/// none occurs.
pub open spec fn basename_start_upto(p: Seq<char>, i: int) -> int
    decreases i,
{
    if 0 < i <= p.len() {
        if p[i - 1] == '/' {
            i
        } else {
            basename_start_upto(p, i - 1)
        }
    } else {
        0
    }
}

/// The file name of a path: everything after the last `/`.
pub open spec fn basename_spec(p: Seq<char>) -> Seq<char> {
    p.skip(basename_start_upto(p, p.len() as int))
}

/// The map a sequence of (package, version) records denotes; a later
/// record for the same package wins.
pub open spec fn session_map(es: Seq<(String, String)>) -> Map<Seq<char>, Seq<char>>
    decreases es.len(),
{
    if es.len() == 0 {
        Map::empty()
    } else {
        session_map(es.drop_last()).insert(es.last().0@, es.last().1@)
    }
}

/// The records without those stored under `key`.
pub open spec fn session_without(es: Seq<(String, String)>, key: Seq<char>) -> Seq<
    (String, String),
>
    decreases es.len(),
{
    if es.len() == 0 {
        Seq::empty()
    } else {
        let p = session_without(es.drop_last(), key);
        if es.last().0@ == key {
            p
        } else {
            p.push(es.last())
        }
    }
}

proof fn lemma_session_without(es: Seq<(String, String)>, key: Seq<char>)
    ensures
        session_map(session_without(es, key)) == session_map(es).remove(key),
    decreases es.len(),
{
    if es.len() == 0 {
        assert(session_map(es).remove(key) =~= Map::<Seq<char>, Seq<char>>::empty());
    } else {
        lemma_session_without(es.drop_last(), key);
        let last = es.last();
        if last.0@ == key {
            assert(session_map(es).remove(key) =~= session_map(es.drop_last()).remove(key));
        } else {
            assert(session_without(es, key).drop_last() =~= session_without(es.drop_last(), key));
            assert(session_without(es, key).last() == last);
            assert(session_map(es).remove(key) =~= session_map(es.drop_last()).remove(key).insert(
                last.0@,
                last.1@,
            ));
        }
    }
}

pub open spec fn session_last(es: Seq<(String, String)>, key: Seq<char>) -> Option<Seq<char>>
    decreases es.len(),
{
    if es.len() == 0 {
        None
    } else if es.last().0@ == key {
        Some(es.last().1@)
    } else {
        session_last(es.drop_last(), key)
    }
}

proof fn lemma_session_last(es: Seq<(String, String)>, key: Seq<char>)
    ensures
        session_last(es, key) matches Some(v) ==> session_map(es).contains_key(key)
            && session_map(es)[key] == v,
        session_last(es, key) is None ==> !session_map(es).contains_key(key),
    decreases es.len(),
{
    if es.len() > 0 && es.last().0@ != key {
        lemma_session_last(es.drop_last(), key);
    }
}

/// Outcome of preparing a change event: the pass stops early, or the
/// parsed dependencies are ready to be resolved.
pub enum ChangeOutcome {
    /// No parser claims the file.
    Ignored,
    /// The debouncer rejected the event.
    Debounced,
    /// The manifest's structured syntax is malformed.
    ParseFailed(ParseError),
    /// The parsed dependencies, ready for resolution.
    Ready(Vec<Dependency>),
}

/// The badge style a comparison outcome maps to; a comparison error is
/// still surfaced as an outdated-style badge, never dropped.
pub open spec fn badge_style_of(c: ComparisonSpec) -> BadgeStyle {
    match c {
        ComparisonSpec::UpToDate { .. } => BadgeStyle::UpToDate,
        ComparisonSpec::Outdated { diff, .. } => if diff == VersionDiff::Major {
            BadgeStyle::MajorDiff
        } else {
            BadgeStyle::Outdated
        },
        ComparisonSpec::Failure { .. } => BadgeStyle::Outdated,
    }
}

/// Monitors manifest changes and keeps the published badges current.
pub struct BufferWatcher {
    version_comparator: VersionComparator,
    decoration_manager: DecorationManager,
    debouncer: Debouncer,
    version_cache: Vec<(String, String)>,
}

impl BufferWatcher {
    /// The published annotations, by document.
    pub closed spec fn annotations_view(&self) -> Map<Seq<char>, Seq<BadgeSpec>> {
        self.decoration_manager@
    }

    /// The debouncer's last-accepted instants, by key.
    pub closed spec fn debounce_view(&self) -> Map<Seq<char>, u64> {
        self.debouncer@
    }

    /// The session cache of resolved versions, by package.
    pub closed spec fn session_view(&self) -> Map<Seq<char>, Seq<char>> {
        session_map(self.version_cache@)
    }

    /// The debouncer's window.
    pub closed spec fn window_spec(&self) -> u64 {
        self.debouncer.window_spec()
    }

    /// Everything the watcher owns is empty.
    pub open spec fn is_cleared(&self) -> bool {
        &&& self.annotations_view() == Map::<Seq<char>, Seq<BadgeSpec>>::empty()
        &&& self.debounce_view() == Map::<Seq<char>, u64>::empty()
        &&& self.session_view() == Map::<Seq<char>, Seq<char>>::empty()
    }

    /// A watcher with empty stores and a 500 ms debounce window.
    pub fn new() -> (r: Self)
        ensures
            r.is_cleared(),
            r.window_spec() == 500,
    {
        let r = BufferWatcher {
            version_comparator: VersionComparator::new(),
            decoration_manager: DecorationManager::new(),
            debouncer: Debouncer::new(500),
            version_cache: Vec::new(),
        };
        proof {
            assert(session_map(r.version_cache@) =~= Map::<Seq<char>, Seq<char>>::empty());
        }
        r
    }

    /// Whether some parser claims this file name.
    pub fn is_package_file(&self, filename: &str) -> (r: bool)
        ensures
            r == (kind_of(filename@) is Some),
    {
        str_eq(filename, "package.json") || str_eq(filename, "Cargo.toml") || str_eq(
            filename,
            "go.mod",
        ) || str_eq(filename, "pyproject.toml") || str_eq(filename, "Gemfile") || str_eq(
            filename,
            "pubspec.yaml",
        ) || str_eq(filename, "pubspec.yml")
    }

    /// The parser kind claiming a path's basename, if any: the ecosystem
    /// the host resolves the path's dependencies against.
    pub fn kind_for_path(&self, file_path: &str) -> (r: Option<ManifestKind>)
        ensures
            r == kind_of(basename_spec(file_path@)),
    {
        let filename = Self::basename(file_path);
        self.get_parser_for_file(filename.as_str())
    }

    /// The parser kind claiming this file name, if any.
    pub fn get_parser_for_file(&self, filename: &str) -> (r: Option<ManifestKind>)
        ensures
            r == kind_of(filename@),
    {
        if str_eq(filename, "package.json") {
            Some(ManifestKind::Npm)
        } else if str_eq(filename, "Cargo.toml") {
            Some(ManifestKind::Cargo)
        } else if str_eq(filename, "go.mod") {
            Some(ManifestKind::Go)
        } else if str_eq(filename, "pyproject.toml") {
            Some(ManifestKind::PyProject)
        } else if str_eq(filename, "Gemfile") {
            Some(ManifestKind::Gemfile)
        } else if str_eq(filename, "pubspec.yaml") || str_eq(filename, "pubspec.yml") {
            Some(ManifestKind::Pubspec)
        } else {
            None
        }
    }

    /// The file names the watcher handles.
    pub fn supported_file_types(&self) -> (r: Vec<&'static str>)
        ensures
            r@.len() == 7,
            r@[0]@ == "package.json"@,
            r@[1]@ == "Cargo.toml"@,
            r@[2]@ == "go.mod"@,
            r@[3]@ == "pyproject.toml"@,
            r@[4]@ == "Gemfile"@,
            r@[5]@ == "pubspec.yaml"@,
            r@[6]@ == "pubspec.yml"@,
            forall|i: int| 0 <= i < r@.len() ==> kind_of((#[trigger] r@[i])@) is Some,
    {
        let mut r: Vec<&'static str> = Vec::new();
        r.push("package.json");
        r.push("Cargo.toml");
        r.push("go.mod");
        r.push("pyproject.toml");
        r.push("Gemfile");
        r.push("pubspec.yaml");
        r.push("pubspec.yml");
        proof {
            assert(forall|i: int| 0 <= i < r@.len() ==> kind_of((#[trigger] r@[i])@) is Some);
        }
        r
    }

    /// Parses manifest content with the parser claiming the file name.
    pub fn parse_dependencies(&self, filename: &str, content: &str) -> (r: Result<
        Vec<Dependency>,
        ParseError,
    >)
        ensures
            kind_of(filename@) is None ==> r is Err,
            kind_of(filename@) matches Some(k) ==> match r {
                Ok(deps) => parse_result_spec(k, content@) matches Ok(s) && deps.deep_view() == s,
                Err(e) => parse_result_spec(k, content@) matches Err(m) && e.message@ == m,
            },
    {
        match self.get_parser_for_file(filename) {
            Some(ManifestKind::Npm) => NpmParser.parse_content(content),
            Some(ManifestKind::Cargo) => CargoParser.parse_content(content),
            Some(ManifestKind::Go) => GoParser.parse_content(content),
            Some(ManifestKind::PyProject) => PyProjectParser.parse_content(content),
            Some(ManifestKind::Gemfile) => GemfileParser.parse_content(content),
            Some(ManifestKind::Pubspec) => PubspecParser.parse_content(content),
            None => Err(ParseError { message: ("No parser found for file").to_owned() }),
        }
    }

    /// The basename of a path: everything after the last `/`.
    fn basename(file_path: &str) -> (r: String)
        ensures
            r@ == basename_spec(file_path@),
    {
        let pv = chars_of(file_path);
        let mut cut: usize = 0;
        let mut i: usize = 0;
        while i < pv.len()
            invariant
                i <= pv@.len(),
                cut <= i,
                cut == basename_start_upto(pv@, i as int),
            decreases pv@.len() - i,
        {
            if pv[i] == '/' {
                cut = i + 1;
            }
            i = i + 1;
        }
        let r = string_of_range(&pv, cut, pv.len());
        proof {
            assert(pv@.subrange(cut as int, pv@.len() as int) =~= pv@.skip(cut as int));
        }
        r
    }

    /// Prepares a change event at instant `now_ms`: dispatch, debounce,
    /// parse. No annotation or session state changes; only an accepted
    /// event updates the debouncer.
    pub fn prepare_change_at(&mut self, file_path: &str, content: &str, now_ms: u64) -> (r:
        ChangeOutcome)
        ensures
            final(self).annotations_view() == old(self).annotations_view(),
            final(self).session_view() == old(self).session_view(),
            final(self).window_spec() == old(self).window_spec(),
            kind_of(basename_spec(file_path@)) is None ==> r is Ignored
                && final(self).debounce_view() == old(self).debounce_view(),
            kind_of(basename_spec(file_path@)) matches Some(k) ==> (if !proceed_spec(
                old(self).debounce_view(),
                file_path@,
                now_ms,
                old(self).window_spec(),
            ) {
                r is Debounced && final(self).debounce_view() == old(self).debounce_view()
            } else {
                final(self).debounce_view() == old(self).debounce_view().insert(
                    file_path@,
                    now_ms,
                ) && match r {
                    ChangeOutcome::Ready(deps) => parse_result_spec(k, content@) matches Ok(s)
                        && deps.deep_view() == s,
                    ChangeOutcome::ParseFailed(e) => parse_result_spec(k, content@) matches Err(m)
                        && e.message@ == m,
                    _ => false,
                }
            }),
    {
        let filename = Self::basename(file_path);
        match self.get_parser_for_file(filename.as_str()) {
            None => ChangeOutcome::Ignored,
            Some(_) => {
                if !self.debouncer.should_proceed_at(file_path, now_ms) {
                    ChangeOutcome::Debounced
                } else {
                    match self.parse_dependencies(filename.as_str(), content) {
                        Err(e) => ChangeOutcome::ParseFailed(e),
                        Ok(deps) => ChangeOutcome::Ready(deps),
                    }
                }
            },
        }
    }

    /// Prepares a manual refresh: the debounce record for the path is
    /// reset first, so the pass is never rejected.
    pub fn refresh_buffer(&mut self, file_path: &str, content: &str, now_ms: u64) -> (r:
        ChangeOutcome)
        ensures
            final(self).annotations_view() == old(self).annotations_view(),
            final(self).session_view() == old(self).session_view(),
            final(self).window_spec() == old(self).window_spec(),
            !(r is Debounced),
            kind_of(basename_spec(file_path@)) is None ==> r is Ignored,
            kind_of(basename_spec(file_path@)) matches Some(k) ==> final(self).debounce_view()
                == old(self).debounce_view().remove(file_path@).insert(file_path@, now_ms)
                && match r {
                ChangeOutcome::Ready(deps) => parse_result_spec(k, content@) matches Ok(s)
                    && deps.deep_view() == s,
                ChangeOutcome::ParseFailed(e) => parse_result_spec(k, content@) matches Err(m)
                    && e.message@ == m,
                _ => false,
            },
    {
        self.debouncer.reset(file_path);
        let r = self.prepare_change_at(file_path, content, now_ms);
        r
    }

    /// The session-cached latest version for a package.
    pub fn get_cached_version(&self, package_name: &str) -> (r: Option<String>)
        ensures
            r is Some <==> self.session_view().contains_key(package_name@),
            r matches Some(v) ==> v@ == self.session_view()[package_name@],
    {
        proof {
            lemma_session_last(self.version_cache@, package_name@);
        }
        let mut k: usize = self.version_cache.len();
        proof {
            assert(self.version_cache@.take(k as int) =~= self.version_cache@);
        }
        while k > 0
            invariant
                k <= self.version_cache@.len(),
                session_last(self.version_cache@, package_name@) == session_last(
                    self.version_cache@.take(k as int),
                    package_name@,
                ),
            decreases k,
        {
            proof {
                lemma_session_last(self.version_cache@, package_name@);
                assert(self.version_cache@.take(k as int).drop_last() =~= self.version_cache@.take(
                    k - 1 as int,
                ));
                assert(self.version_cache@.take(k as int).last() == self.version_cache@[k - 1]);
            }
            if str_eq(self.version_cache[k - 1].0.as_str(), package_name) {
                return Some(self.version_cache[k - 1].1.clone());
            }
            k = k - 1;
        }
        proof {
            lemma_session_last(self.version_cache@, package_name@);
            assert(self.version_cache@.take(0) =~= Seq::<(String, String)>::empty());
        }
        None
    }

    /// Stores a freshly fetched latest version in the session cache.
    pub fn store_version(&mut self, package_name: &str, version: &str)
        ensures
            final(self).session_view() == old(self).session_view().insert(
                package_name@,
                version@,
            ),
            final(self).annotations_view() == old(self).annotations_view(),
            final(self).debounce_view() == old(self).debounce_view(),
            final(self).window_spec() == old(self).window_spec(),
    {
        let ghost original = self.version_cache@;
        let mut kept: Vec<(String, String)> = Vec::new();
        let mut i: usize = 0;
        proof {
            assert(kept@ =~= session_without(original.take(0), package_name@)) by {
                assert(original.take(0) =~= Seq::<(String, String)>::empty());
            }
        }
        while i < self.version_cache.len()
            invariant
                i <= self.version_cache@.len(),
                self.version_cache@ == original,
                kept@ == session_without(original.take(i as int), package_name@),
            decreases self.version_cache@.len() - i,
        {
            proof {
                assert(original.take(i + 1 as int).drop_last() =~= original.take(i as int));
                assert(original.take(i + 1 as int).last() == original[i as int]);
            }
            let name = self.version_cache[i].0.clone();
            let value = self.version_cache[i].1.clone();
            if !str_eq(name.as_str(), package_name) {
                kept.push((name, value));
            }
            i = i + 1;
        }
        proof {
            assert(original.take(original.len() as int) =~= original);
            lemma_session_without(original, package_name@);
        }
        self.version_cache = kept;
        let ghost purged = self.version_cache@;
        self.version_cache.push((package_name.to_owned(), version.to_owned()));
        proof {
            assert(self.version_cache@.drop_last() =~= purged);
            assert(session_map(self.version_cache@) == session_map(purged).insert(
                package_name@,
                version@,
            ));
            assert(session_map(purged).insert(package_name@, version@) =~= session_map(
                original,
            ).insert(package_name@, version@));
        }
    }

    /// Compares a specifier against a latest version.
    pub fn compare_versions(&self, current_spec: &str, latest_version: &str) -> (r:
        VersionComparison)
        ensures
            r@ == compare_spec(current_spec@, latest_version@),
    {
        self.version_comparator.compare(current_spec, latest_version)
    }

    /// Builds the badge a comparison outcome renders to.
    pub fn create_badge_from_comparison(
        &self,
        package_name: &str,
        latest_version: &str,
        line_number: usize,
        comparison: &VersionComparison,
    ) -> (r: Badge)
        ensures
            r@.text == display_text_spec(comparison@),
            r@.style == badge_style_of(comparison@),
            r@.line == line_number,
            r@.package_name == package_name@,
    {
        let style = match comparison {
            VersionComparison::UpToDate { .. } => BadgeStyle::UpToDate,
            VersionComparison::Outdated { diff, .. } => {
                match diff {
                    VersionDiff::Major => BadgeStyle::MajorDiff,
                    _ => BadgeStyle::Outdated,
                }
            },
            VersionComparison::Error(_) => BadgeStyle::Outdated,
        };
        let text = comparison.display_text();
        Badge::new(text, style, line_number, package_name.to_owned())
    }

    /// Resolves one dependency against an already fetched latest version
    /// and builds its badge.
    pub fn process_dependency(
        &mut self,
        package_name: &str,
        current_version: &str,
        line_number: usize,
        latest_version: &str,
    ) -> (r: Badge)
        ensures
            r@.text == display_text_spec(compare_spec(current_version@, latest_version@)),
            r@.style == badge_style_of(compare_spec(current_version@, latest_version@)),
            r@.line == line_number,
            r@.package_name == package_name@,
            final(self).session_view() == old(self).session_view().insert(
                package_name@,
                latest_version@,
            ),
            final(self).annotations_view() == old(self).annotations_view(),
            final(self).debounce_view() == old(self).debounce_view(),
            final(self).window_spec() == old(self).window_spec(),
    {
        self.store_version(package_name, latest_version);
        let comparison = self.compare_versions(current_version, latest_version);
        self.create_badge_from_comparison(package_name, latest_version, line_number, &comparison)
    }

    /// Publishes the badge list for a document, replacing whatever was
    /// stored for it.
    pub fn publish_badges(&mut self, file_path: &str, badges: Vec<Badge>)
        ensures
            final(self).annotations_view() == old(self).annotations_view().insert(
                file_path@,
                badges.deep_view(),
            ),
            final(self).session_view() == old(self).session_view(),
            final(self).debounce_view() == old(self).debounce_view(),
            final(self).window_spec() == old(self).window_spec(),
    {
        self.decoration_manager.update_badges(badges, file_path);
    }

    /// Clears a document's annotations and its debounce record, so its
    /// next change is guaranteed to proceed.
    pub fn clear_buffer(&mut self, file_path: &str)
        ensures
            final(self).annotations_view() == old(self).annotations_view().remove(file_path@),
            final(self).debounce_view() == old(self).debounce_view().remove(file_path@),
            final(self).session_view() == old(self).session_view(),
            final(self).window_spec() == old(self).window_spec(),
    {
        self.decoration_manager.clear_badges(file_path);
        self.debouncer.reset(file_path);
    }

    /// Empties the annotation store, the debouncer and the session cache.
    /// The persistent cache is a separate component and is not touched.
    pub fn clear_all(&mut self)
        ensures
            final(self).is_cleared(),
            final(self).window_spec() == old(self).window_spec(),
    {
        self.decoration_manager.clear_all();
        self.debouncer.clear();
        self.version_cache = Vec::new();
        proof {
            assert(session_map(self.version_cache@) =~= Map::<Seq<char>, Seq<char>>::empty());
        }
    }

    /// Read access to the decoration manager.
    pub fn decoration_manager(&self) -> (r: &DecorationManager)
        ensures
            r@ == self.annotations_view(),
    {
        &self.decoration_manager
    }

    /// Write access to the decoration manager.
    pub fn decoration_manager_mut(&mut self) -> &mut DecorationManager {
        &mut self.decoration_manager
    }

    /// Whether a document has a non-empty badge set.
    pub fn has_active_badges(&self, file_path: &str) -> (r: bool)
        ensures
            r == (self.annotations_view().contains_key(file_path@) && self.annotations_view()[
                file_path@
            ].len() > 0),
    {
        self.decoration_manager.has_badges(file_path)
    }

    /// The number of badges published for a document.
    pub fn badge_count(&self, file_path: &str) -> (r: usize)
        ensures
            self.annotations_view().contains_key(file_path@) ==> r == self.annotations_view()[
                file_path@
            ].len(),
            !self.annotations_view().contains_key(file_path@) ==> r == 0,
    {
        self.decoration_manager.badge_count(file_path)
    }
}

impl Default for BufferWatcher {
    fn default() -> (r: Self)
        ensures
            r.is_cleared(),
            r.window_spec() == 500,
    {
        BufferWatcher::new()
    }
}

/// Clearing everything is idempotent: the state `clear_all` leaves behind
/// does not depend on the state it started from, so a second `clear_all`
/// changes nothing.
pub proof fn lemma_clear_all_idempotent(once: &BufferWatcher, twice: &BufferWatcher)
    requires
        once.is_cleared(),
        twice.is_cleared(),
    ensures
        once.annotations_view() == twice.annotations_view(),
        once.debounce_view() == twice.debounce_view(),
        once.session_view() == twice.session_view(),
{
}

/// Two change events for one path in rapid succession publish once: the
/// first proceeds and records its instant, so the second, still inside the
/// window, is rejected — and a rejected event leaves every store
/// unchanged, publishing nothing.
pub proof fn lemma_rapid_changes_publish_once(
    dm: Map<Seq<char>, u64>,
    path: Seq<char>,
    t1: u64,
    t2: u64,
    window: u64,
)
    requires
        proceed_spec(dm, path, t1, window),
        t1 <= t2,
        sat_sub(t2, t1) < window,
    ensures
        !proceed_spec(dm.insert(path, t1), path, t2, window),
{
    crate::debouncer::lemma_debounce_rapid_succession(dm, path, t1, t2, window);
}

} // verus!

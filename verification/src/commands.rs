//! Command-palette handlers: the user-facing cache and UI actions.

use vstd::prelude::*;
use vstd::string::StringExecFns;
use crate::cache::FileCache;
use crate::state::AppState;
use crate::text::str_eq;

verus! {

pub struct CacheCommands;

impl CacheCommands {
    /// Empties the persistent cache and reports success.
    pub fn clear_cache(cache: &mut FileCache) -> (r: Result<String, String>)
        ensures
            final(cache)@ == Map::<Seq<char>, (Seq<char>, u64)>::empty(),
            r matches Ok(m) && m@ == "Cache cleared successfully"@,
    {
        let cleared = cache.clear();
        match cleared {
            Ok(()) => Ok(("Cache cleared successfully").to_owned()),
            Err(m) => Err(m),
        }
    }

    /// A full refresh pass over every open manifest is driven by the host,
    /// which supplies each manifest's path and content to the watcher; this
    /// command only acknowledges the request.
    pub fn check_all_updates() -> (r: Result<String, String>)
        ensures
            r matches Ok(m) && m@ == "Check all updates: the host supplies each manifest"@,
    {
        Ok(("Check all updates: the host supplies each manifest").to_owned())
    }
}

pub struct UiCommands;

/// The registry page for a package, per registry identifier; an unknown
/// identifier is reported in the error.
pub open spec fn registry_url_spec(package_name: Seq<char>, registry: Seq<char>) -> Result<
    Seq<char>,
    Seq<char>,
> {
    if registry == "npm"@ {
        Ok("https://www.npmjs.com/package/"@ + package_name)
    } else if registry == "crates.io"@ {
        Ok("https://crates.io/crates/"@ + package_name)
    } else if registry == "pypi"@ {
        Ok("https://pypi.org/project/"@ + package_name)
    } else if registry == "rubygems"@ {
        Ok("https://rubygems.org/gems/"@ + package_name)
    } else if registry == "pub.dev"@ {
        Ok("https://pub.dev/packages/"@ + package_name)
    } else if registry == "go"@ {
        Ok("https://pkg.go.dev/"@ + package_name)
    } else {
        Err("Unknown registry: "@ + registry)
    }
}

impl UiCommands {
    /// Flips the inline-badge toggle and reports the new state.
    pub fn toggle_inline(state: &mut AppState) -> (r: String)
        ensures
            final(state).inline_spec() == !old(state).inline_spec(),
            final(state).inline_spec() ==> r@ == "Inline badges enabled"@,
            !final(state).inline_spec() ==> r@ == "Inline badges disabled"@,
    {
        let enabled = state.toggle_inline();
        if enabled {
            ("Inline badges enabled").to_owned()
        } else {
            ("Inline badges disabled").to_owned()
        }
    }

    /// The registry page to open for a package.
    pub fn open_registry(package_name: &str, registry: &str) -> (r: Result<String, String>)
        ensures
            r is Ok <==> registry_url_spec(package_name@, registry@) is Ok,
            r matches Ok(u) ==> registry_url_spec(package_name@, registry@) == Ok::<
                Seq<char>,
                Seq<char>,
            >(u@),
            r matches Err(m) ==> registry_url_spec(package_name@, registry@) == Err::<
                Seq<char>,
                Seq<char>,
            >(m@),
    {
        if str_eq(registry, "npm") {
            let mut s = ("https://www.npmjs.com/package/").to_owned();
            s.append(package_name);
            Ok(s)
        } else if str_eq(registry, "crates.io") {
            let mut s = ("https://crates.io/crates/").to_owned();
            s.append(package_name);
            Ok(s)
        } else if str_eq(registry, "pypi") {
            let mut s = ("https://pypi.org/project/").to_owned();
            s.append(package_name);
            Ok(s)
        } else if str_eq(registry, "rubygems") {
            let mut s = ("https://rubygems.org/gems/").to_owned();
            s.append(package_name);
            Ok(s)
        } else if str_eq(registry, "pub.dev") {
            let mut s = ("https://pub.dev/packages/").to_owned();
            s.append(package_name);
            Ok(s)
        } else if str_eq(registry, "go") {
            let mut s = ("https://pkg.go.dev/").to_owned();
            s.append(package_name);
            Ok(s)
        } else {
            let mut s = ("Unknown registry: ").to_owned();
            s.append(registry);
            Err(s)
        }
    }
}

} // verus!

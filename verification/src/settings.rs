//! User settings: cache lifetime, default toggle state, enabled
//! registries, and the ignore list.

use vstd::prelude::*;
use crate::text::{
    chars_of,
    lines_spec,
    range_starts_with,
    split_lines,
    starts_with_spec,
    string_of,
    trim_spec,
    trimmed,
};

verus! {

pub struct Settings {
    pub cache_ttl_hours: u32,
    pub inline_enabled_default: bool,
    pub enabled_registries: Vec<String>,
    pub ignore_list: Vec<String>,
}

impl Settings {
    /// Whether lookups for `package` are suppressed: it equals an ignore
    /// entry or starts with one.
    pub fn should_ignore(&self, package: &str) -> (r: bool)
        ensures
            r == exists|i: int|
                0 <= i < self.ignore_list@.len() && starts_with_spec(
                    package@,
                    (#[trigger] self.ignore_list@[i])@,
                ),
    {
        let pv = chars_of(package);
        proof {
            assert(pv@.skip(0) =~= pv@);
        }
        let mut i: usize = 0;
        while i < self.ignore_list.len()
            invariant
                i <= self.ignore_list@.len(),
                pv@ == package@,
                forall|j: int|
                    0 <= j < i ==> !starts_with_spec(package@, (#[trigger] self.ignore_list@[j])@),
            decreases self.ignore_list@.len() - i,
        {
            proof {
                assert(pv@.skip(0) =~= pv@);
            }
            let entry = &self.ignore_list[i];
            if crate::text::str_eq(entry.as_str(), package) || range_starts_with(
                &pv,
                0,
                entry.as_str(),
            ) {
                proof {
                    if package@ == entry@ {
                        assert(package@.subrange(0, entry@.len() as int) =~= entry@);
                    }
                    assert(starts_with_spec(package@, (self.ignore_list@[i as int])@));
                }
                return true;
            }
            i = i + 1;
        }
        false
    }
}

/// The ignore entries an ignore-file text holds: each line trimmed, blank
/// lines and `#` comments dropped.
pub open spec fn ignore_lines_spec(lines: Seq<Seq<char>>) -> Seq<Seq<char>>
    decreases lines.len(),
{
    if lines.len() == 0 {
        Seq::empty()
    } else {
        let prev = ignore_lines_spec(lines.drop_last());
        let t = trim_spec(lines.last());
        if t.len() > 0 && t[0] != '#' {
            prev.push(t)
        } else {
            prev
        }
    }
}

/// Parses the content of an ignore file into its entries.
pub fn ignore_list_from_text(content: &str) -> (r: Vec<String>)
    ensures
        r.deep_view() == ignore_lines_spec(lines_spec(content@)),
{
    let chars = chars_of(content);
    let all_lines = split_lines(&chars);
    let ghost ls = lines_spec(content@);
    let mut r: Vec<String> = Vec::new();
    let mut idx: usize = 0;
    proof {
        assert(ls.take(0) =~= Seq::<Seq<char>>::empty());
        assert(r.deep_view() =~= Seq::<Seq<char>>::empty());
    }
    while idx < all_lines.len()
        invariant
            idx <= all_lines@.len(),
            all_lines.deep_view() == ls,
            all_lines@.len() == ls.len(),
            r.deep_view() == ignore_lines_spec(ls.take(idx as int)),
        decreases all_lines@.len() - idx,
    {
        let line = &all_lines[idx];
        proof {
            assert(line@ == ls[idx as int]);
            assert(ls.take(idx + 1 as int).drop_last() =~= ls.take(idx as int));
            assert(ls.take(idx + 1 as int).last() == ls[idx as int]);
        }
        let t = trimmed(line);
        if t.len() > 0 && t[0] != '#' {
            let ghost old_deep = r.deep_view();
            let entry = string_of(&t);
            r.push(entry);
            proof {
                assert(r.deep_view() =~~= old_deep.push(trim_spec(line@)));
            }
        }
        idx = idx + 1;
    }
    proof {
        assert(ls.take(idx as int) =~= ls);
    }
    r
}

impl Default for Settings {
    /// A 24-hour cache lifetime, inline badges on, all six registries
    /// enabled, and an empty ignore list.
    fn default() -> (r: Settings)
        ensures
            r.cache_ttl_hours == 24,
            r.inline_enabled_default,
            r.enabled_registries@.len() == 6,
            r.enabled_registries@[0]@ == "npm"@,
            r.enabled_registries@[1]@ == "crates.io"@,
            r.enabled_registries@[2]@ == "pypi"@,
            r.enabled_registries@[3]@ == "rubygems"@,
            r.enabled_registries@[4]@ == "pub.dev"@,
            r.enabled_registries@[5]@ == "go"@,
            r.ignore_list@.len() == 0,
    {
        let mut enabled_registries: Vec<String> = Vec::new();
        enabled_registries.push("npm".to_owned());
        enabled_registries.push("crates.io".to_owned());
        enabled_registries.push("pypi".to_owned());
        enabled_registries.push("rubygems".to_owned());
        enabled_registries.push("pub.dev".to_owned());
        enabled_registries.push("go".to_owned());
        Settings {
            cache_ttl_hours: 24,
            inline_enabled_default: true,
            enabled_registries,
            ignore_list: Vec::new(),
        }
    }
}

} // verus!

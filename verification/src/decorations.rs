//! Per-document store of the currently published badges.

use vstd::prelude::*;
use vstd::pervasive::cloned;
use vstd::string::StringExecFns;
use crate::badges::{Badge, BadgeSpec, BadgeStyle};
use crate::text::str_eq;

verus! {

/// The view of the stored records: each document identifier with the views
/// of its badges.
pub open spec fn records_view(es: Seq<(String, Vec<Badge>)>) -> Seq<(Seq<char>, Seq<BadgeSpec>)> {
    es.map_values(|p: (String, Vec<Badge>)| (p.0@, p.1.deep_view()))
}

/// The identifiers of the records holding a non-empty badge set, in
/// order.
pub open spec fn active_ids_spec(ps: Seq<(Seq<char>, Seq<BadgeSpec>)>) -> Seq<Seq<char>>
    decreases ps.len(),
{
    if ps.len() == 0 {
        Seq::empty()
    } else {
        let p = active_ids_spec(ps.drop_last());
        if ps.last().1.len() > 0 {
            p.push(ps.last().0)
        } else {
            p
        }
    }
}


/// Every listed identifier is a key of the denoted map.
proof fn lemma_active_ids_sound(ps: Seq<(Seq<char>, Seq<BadgeSpec>)>, k: int)
    requires
        0 <= k < active_ids_spec(ps).len(),
    ensures
        badges_map(ps).contains_key(active_ids_spec(ps)[k]),
    decreases ps.len(),
{
    if ps.len() == 0 {
    } else {
        let dl = ps.drop_last();
        if ps.last().1.len() > 0 {
            if k == active_ids_spec(ps).len() - 1 {
                assert(active_ids_spec(ps)[k] == ps.last().0);
            } else {
                assert(active_ids_spec(ps)[k] == active_ids_spec(dl)[k]);
                lemma_active_ids_sound(dl, k);
            }
        } else {
            lemma_active_ids_sound(dl, k);
        }
    }
}

/// Every key of the denoted map that holds a non-empty badge set is
/// listed.
proof fn lemma_active_ids_complete(ps: Seq<(Seq<char>, Seq<BadgeSpec>)>, key: Seq<char>)
    requires
        badges_map(ps).contains_key(key),
        badges_map(ps)[key].len() > 0,
    ensures
        active_ids_spec(ps).contains(key),
    decreases ps.len(),
{
    if ps.len() == 0 {
        assert(badges_map(ps) =~= Map::<Seq<char>, Seq<BadgeSpec>>::empty());
    } else {
        let dl = ps.drop_last();
        if ps.last().0 == key {
            assert(active_ids_spec(ps) == active_ids_spec(dl).push(key));
            assert(active_ids_spec(ps).last() == key);
        } else {
            assert(badges_map(ps)[key] == badges_map(dl)[key]);
            lemma_active_ids_complete(dl, key);
            let i = choose|i: int|
                0 <= i < active_ids_spec(dl).len() && active_ids_spec(dl)[i] == key;
            assert(active_ids_spec(ps)[i] == key);
        }
    }
}

/// The map a sequence of (document, badges) records denotes; a later
/// record for the same document wins.
pub open spec fn badges_map(ps: Seq<(Seq<char>, Seq<BadgeSpec>)>) -> Map<Seq<char>, Seq<BadgeSpec>>
    decreases ps.len(),
{
    if ps.len() == 0 {
        Map::empty()
    } else {
        badges_map(ps.drop_last()).insert(ps.last().0, ps.last().1)
    }
}

/// The records without those stored under `key`.
pub open spec fn pairs_without(ps: Seq<(Seq<char>, Seq<BadgeSpec>)>, key: Seq<char>) -> Seq<
    (Seq<char>, Seq<BadgeSpec>),
>
    decreases ps.len(),
{
    if ps.len() == 0 {
        Seq::empty()
    } else {
        let p = pairs_without(ps.drop_last(), key);
        if ps.last().0 == key {
            p
        } else {
            p.push(ps.last())
        }
    }
}

proof fn lemma_pairs_without(ps: Seq<(Seq<char>, Seq<BadgeSpec>)>, key: Seq<char>)
    ensures
        badges_map(pairs_without(ps, key)) == badges_map(ps).remove(key),
    decreases ps.len(),
{
    if ps.len() == 0 {
        assert(badges_map(ps).remove(key) =~= Map::<Seq<char>, Seq<BadgeSpec>>::empty());
    } else {
        lemma_pairs_without(ps.drop_last(), key);
        let last = ps.last();
        if last.0 == key {
            assert(badges_map(ps).remove(key) =~= badges_map(ps.drop_last()).remove(key));
        } else {
            assert(pairs_without(ps, key).drop_last() =~= pairs_without(ps.drop_last(), key));
            assert(pairs_without(ps, key).last() == last);
            assert(badges_map(ps).remove(key) =~= badges_map(ps.drop_last()).remove(key).insert(
                last.0,
                last.1,
            ));
        }
    }
}

/// The index of the last-stored record for a key, which is the one the
/// denoted map holds.
pub open spec fn last_record(ps: Seq<(Seq<char>, Seq<BadgeSpec>)>, key: Seq<char>) -> Option<int>
    decreases ps.len(),
{
    if ps.len() == 0 {
        None
    } else if ps.last().0 == key {
        Some(ps.len() - 1)
    } else {
        last_record(ps.drop_last(), key)
    }
}

proof fn lemma_last_record(ps: Seq<(Seq<char>, Seq<BadgeSpec>)>, key: Seq<char>)
    ensures
        last_record(ps, key) matches Some(i) ==> 0 <= i < ps.len() && ps[i].0 == key
            && badges_map(ps).contains_key(key) && badges_map(ps)[key] == ps[i].1,
        last_record(ps, key) is None ==> !badges_map(ps).contains_key(key),
    decreases ps.len(),
{
    if ps.len() > 0 && ps.last().0 != key {
        lemma_last_record(ps.drop_last(), key);
        match last_record(ps.drop_last(), key) {
            Some(i) => {
                assert(ps.drop_last()[i] == ps[i]);
            },
            None => {},
        }
    }
}

/// Manages the badge set of each document.
pub struct DecorationManager {
    badges_cache: Vec<(String, Vec<Badge>)>,
}

impl View for DecorationManager {
    type V = Map<Seq<char>, Seq<BadgeSpec>>;

    closed spec fn view(&self) -> Map<Seq<char>, Seq<BadgeSpec>> {
        badges_map(records_view(self.badges_cache@))
    }
}

impl DecorationManager {
    pub fn new() -> (r: Self)
        ensures
            r@ == Map::<Seq<char>, Seq<BadgeSpec>>::empty(),
    {
        let r = DecorationManager { badges_cache: Vec::new() };
        proof {
            assert(records_view(r.badges_cache@) =~= Seq::<(Seq<char>, Seq<BadgeSpec>)>::empty());
            assert(r@ =~= Map::<Seq<char>, Seq<BadgeSpec>>::empty());
        }
        r
    }

    /// Removes every record stored under `key`.
    fn purge(&mut self, key: &str)
        ensures
            final(self)@ == old(self)@.remove(key@),
    {
        let ghost original = self.badges_cache@;
        let mut kept: Vec<(String, Vec<Badge>)> = Vec::new();
        let mut i: usize = 0;
        proof {
            assert(records_view(kept@) =~= pairs_without(records_view(original.take(0)), key@))
                by {
                assert(records_view(original.take(0)) =~= Seq::<
                    (Seq<char>, Seq<BadgeSpec>),
                >::empty());
            }
        }
        while i < self.badges_cache.len()
            invariant
                i <= self.badges_cache@.len(),
                self.badges_cache@ == original,
                records_view(kept@) == pairs_without(records_view(original.take(i as int)), key@),
            decreases self.badges_cache@.len() - i,
        {
            proof {
                assert(records_view(original.take(i + 1 as int)) =~= records_view(
                    original.take(i as int),
                ).push((original[i as int].0@, original[i as int].1.deep_view())));
            }
            let name = self.badges_cache[i].0.clone();
            let entry = self.badges_cache[i].1.clone();
            proof {
                let ghost orig_vec = original[i as int].1;
                assert(entry@.len() == orig_vec@.len());
                assert(forall|k: int|
                    0 <= k < entry@.len() ==> cloned::<Badge>(orig_vec[k], entry@[k]));
                assert forall|k: int| 0 <= k < entry@.len() implies entry@[k] == orig_vec@[k] by {
                    assert(cloned::<Badge>(orig_vec[k], entry@[k]));
                }
                assert(entry@ =~= orig_vec@);
                assert(entry.deep_view() =~= orig_vec.deep_view());
            }
            let matched = str_eq(name.as_str(), key);
            if !matched {
                let ghost kept_view = records_view(kept@);
                kept.push((name, entry));
                proof {
                    assert(records_view(kept@) =~= kept_view.push(
                        (original[i as int].0@, original[i as int].1.deep_view()),
                    ));
                }
            }
            proof {
                let pair = (original[i as int].0@, original[i as int].1.deep_view());
                let a = records_view(original.take(i as int));
                assert(a.push(pair).drop_last() =~= a);
                assert(a.push(pair).last() == pair);
                assert(pair.0 == name@);
                assert(records_view(original.take(i + 1 as int)) == a.push(pair));
            }
            i = i + 1;
        }
        proof {
            assert(original.take(original.len() as int) =~= original);
            lemma_pairs_without(records_view(original), key@);
        }
        self.badges_cache = kept;
    }

    /// Replaces the badge set of `buffer_id` with `badges`.
    pub fn update_badges(&mut self, badges: Vec<Badge>, buffer_id: &str)
        ensures
            final(self)@ == old(self)@.insert(buffer_id@, badges.deep_view()),
    {
        let ghost bv = badges.deep_view();
        self.purge(buffer_id);
        let ghost purged = self.badges_cache@;
        self.badges_cache.push((buffer_id.to_owned(), badges));
        proof {
            assert(records_view(self.badges_cache@) =~= records_view(purged).push(
                (buffer_id@, bv),
            ));
            assert(records_view(purged).push((buffer_id@, bv)).drop_last() =~= records_view(
                purged,
            ));
            assert(self@ == badges_map(records_view(purged)).insert(buffer_id@, bv));
            assert(badges_map(records_view(purged)).insert(buffer_id@, bv) =~= old(self)@.insert(
                buffer_id@,
                bv,
            ));
        }
    }

    /// The badges of `buffer_id`, where any are stored.
    pub fn get_badges(&self, buffer_id: &str) -> (r: Option<&Vec<Badge>>)
        ensures
            r is Some <==> self@.contains_key(buffer_id@),
            r matches Some(b) ==> b.deep_view() == self@[buffer_id@],
    {
        let ghost ps = records_view(self.badges_cache@);
        proof {
            lemma_last_record(ps, buffer_id@);
        }
        let mut k: usize = self.badges_cache.len();
        proof {
            assert(ps.take(k as int) =~= ps);
        }
        while k > 0
            invariant
                k <= self.badges_cache@.len(),
                ps == records_view(self.badges_cache@),
                ps.len() == self.badges_cache@.len(),
                last_record(ps, buffer_id@) == last_record(ps.take(k as int), buffer_id@),
            decreases k,
        {
            proof {
                lemma_last_record(ps, buffer_id@);
                assert(ps.take(k as int).drop_last() =~= ps.take(k - 1 as int));
                assert(ps.take(k as int).last() == ps[k - 1]);
                assert(ps[k - 1] == (
                    self.badges_cache@[k - 1].0@,
                    self.badges_cache@[k - 1].1.deep_view(),
                ));
            }
            if str_eq(self.badges_cache[k - 1].0.as_str(), buffer_id) {
                return Some(&self.badges_cache[k - 1].1);
            }
            k = k - 1;
        }
        proof {
            lemma_last_record(ps, buffer_id@);
            assert(ps.take(0) =~= Seq::<(Seq<char>, Seq<BadgeSpec>)>::empty());
        }
        None
    }

    /// Removes the badge set of `buffer_id`.
    pub fn clear_badges(&mut self, buffer_id: &str)
        ensures
            final(self)@ == old(self)@.remove(buffer_id@),
    {
        self.purge(buffer_id);
    }

    /// Removes every badge set.
    pub fn clear_all(&mut self)
        ensures
            final(self)@ == Map::<Seq<char>, Seq<BadgeSpec>>::empty(),
    {
        self.badges_cache = Vec::new();
        proof {
            assert(records_view(self.badges_cache@) =~= Seq::<
                (Seq<char>, Seq<BadgeSpec>),
            >::empty());
            assert(self@ =~= Map::<Seq<char>, Seq<BadgeSpec>>::empty());
        }
    }

    /// Whether `buffer_id` has a non-empty badge set.
    pub fn has_badges(&self, buffer_id: &str) -> (r: bool)
        ensures
            r == (self@.contains_key(buffer_id@) && self@[buffer_id@].len() > 0),
    {
        match self.get_badges(buffer_id) {
            Some(b) => b.len() > 0,
            None => false,
        }
    }

    /// The number of badges stored for `buffer_id`.
    pub fn badge_count(&self, buffer_id: &str) -> (r: usize)
        ensures
            self@.contains_key(buffer_id@) ==> r == self@[buffer_id@].len(),
            !self@.contains_key(buffer_id@) ==> r == 0,
    {
        match self.get_badges(buffer_id) {
            Some(b) => b.len(),
            None => 0,
        }
    }

    /// The identifiers of the documents holding a non-empty badge set, in
    /// storage order: each listed identifier is a key of the view, and
    /// every key with a non-empty badge set is listed.
    pub fn active_ids(&self) -> (r: Vec<String>)
        ensures
            r.deep_view() == active_ids_spec(records_view(self.records())),
            forall|k: int| 0 <= k < r@.len() ==> self@.contains_key((#[trigger] r@[k])@),
            forall|key: Seq<char>|
                #[trigger] self@.contains_key(key) && self@[key].len() > 0 ==> r.deep_view()
                    .contains(key),
    {
        let ghost ps = records_view(self.badges_cache@);
        let mut r: Vec<String> = Vec::new();
        let mut i: usize = 0;
        proof {
            assert(ps.take(0) =~= Seq::<(Seq<char>, Seq<BadgeSpec>)>::empty());
            assert(r.deep_view() =~= active_ids_spec(ps.take(0)));
        }
        while i < self.badges_cache.len()
            invariant
                i <= self.badges_cache@.len(),
                ps == records_view(self.badges_cache@),
                ps.len() == self.badges_cache@.len(),
                r.deep_view() == active_ids_spec(ps.take(i as int)),
            decreases self.badges_cache@.len() - i,
        {
            proof {
                assert(ps.take(i + 1 as int).drop_last() =~= ps.take(i as int));
                assert(ps.take(i + 1 as int).last() == ps[i as int]);
                assert(ps[i as int] == (
                    self.badges_cache@[i as int].0@,
                    self.badges_cache@[i as int].1.deep_view(),
                ));
            }
            if self.badges_cache[i].1.len() > 0 {
                let name = self.badges_cache[i].0.clone();
                let ghost old_deep = r.deep_view();
                r.push(name);
                proof {
                    assert(r.deep_view() =~= old_deep.push(ps[i as int].0));
                }
            }
            i = i + 1;
        }
        proof {
            assert(ps.take(ps.len() as int) =~= ps);
            assert forall|k: int| 0 <= k < r@.len() implies self@.contains_key(
                (r@[k])@,
            ) by {
                assert(r.deep_view()[k] == r@[k]@);
                lemma_active_ids_sound(ps, k);
            };
            assert forall|key: Seq<char>|
                self@.contains_key(key) && self@[key].len() > 0 implies r.deep_view().contains(
                key,
            ) by {
                lemma_active_ids_complete(ps, key);
            };
        }
        r
    }

    /// The stored records.
    pub closed spec fn records(&self) -> Seq<(String, Vec<Badge>)> {
        self.badges_cache@
    }
}

impl Default for DecorationManager {
    fn default() -> (r: Self)
        ensures
            r@ == Map::<Seq<char>, Seq<BadgeSpec>>::empty(),
    {
        DecorationManager::new()
    }
}

/// The overview text of one built badge: the current and latest versions
/// with a word for the style.
pub open spec fn overview_text_spec(current: Seq<char>, latest: Seq<char>) -> Seq<char> {
    match crate::badges::style_of_spec(current, latest) {
        BadgeStyle::UpToDate => current + " -> "@ + latest + " (current)"@,
        BadgeStyle::Outdated => current + " -> "@ + latest + " (outdated)"@,
        BadgeStyle::MajorDiff => current + " -> "@ + latest + " (major)"@,
    }
}

/// Builds one badge per (package, current, latest, line) record, styled by
/// the version difference.
pub fn create_badges_from_versions(versions: Vec<(String, String, String, usize)>) -> (r: Vec<
    Badge,
>)
    ensures
        r@.len() == versions@.len(),
        forall|i: int|
            0 <= i < r@.len() ==> (#[trigger] r@[i])@.style == crate::badges::style_of_spec(
                versions@[i].1@,
                versions@[i].2@,
            ) && r@[i]@.text == overview_text_spec(versions@[i].1@, versions@[i].2@)
                && r@[i]@.line == versions@[i].3 && r@[i]@.package_name == versions@[i].0@,
{
    let mut r: Vec<Badge> = Vec::new();
    let mut i: usize = 0;
    while i < versions.len()
        invariant
            i <= versions@.len(),
            r@.len() == i,
            forall|k: int|
                0 <= k < i ==> (#[trigger] r@[k])@.style == crate::badges::style_of_spec(
                    versions@[k].1@,
                    versions@[k].2@,
                ) && r@[k]@.text == overview_text_spec(versions@[k].1@, versions@[k].2@)
                    && r@[k]@.line == versions@[k].3 && r@[k]@.package_name == versions@[k].0@,
        decreases versions@.len() - i,
    {
        let name = versions[i].0.clone();
        let current = versions[i].1.clone();
        let latest = versions[i].2.clone();
        let line = versions[i].3;
        let style = BadgeStyle::from_version_diff(current.as_str(), latest.as_str());
        let mut text = current.clone();
        match style {
            BadgeStyle::UpToDate => {
                text.append(" -> ");
                text.append(latest.as_str());
                text.append(" (current)");
            },
            BadgeStyle::Outdated => {
                text.append(" -> ");
                text.append(latest.as_str());
                text.append(" (outdated)");
            },
            BadgeStyle::MajorDiff => {
                text.append(" -> ");
                text.append(latest.as_str());
                text.append(" (major)");
            },
        }
        let badge = Badge::new(text, style, line, name);
        r.push(badge);
        i = i + 1;
    }
    r
}

/// The badge views among `badges` whose style is `style`, in order.
pub open spec fn filtered_by_style(bs: Seq<Badge>, style: BadgeStyle) -> Seq<BadgeSpec>
    decreases bs.len(),
{
    if bs.len() == 0 {
        Seq::empty()
    } else {
        let p = filtered_by_style(bs.drop_last(), style);
        if bs.last()@.style == style {
            p.push(bs.last()@)
        } else {
            p
        }
    }
}

/// The badges among `badges` whose style is `style`, in order.
pub fn filter_badges_by_style<'a>(badges: &'a [Badge], style: &'a BadgeStyle) -> (r: Vec<
    &'a Badge,
>)
    ensures
        r.deep_view() == filtered_by_style(badges@, *style),
{
    let mut r: Vec<&'a Badge> = Vec::new();
    let mut i: usize = 0;
    proof {
        assert(badges@.take(0) =~= Seq::<Badge>::empty());
        assert(r.deep_view() =~= filtered_by_style(badges@.take(0), *style));
    }
    while i < badges.len()
        invariant
            i <= badges@.len(),
            r.deep_view() == filtered_by_style(badges@.take(i as int), *style),
        decreases badges@.len() - i,
    {
        proof {
            assert(badges@.take(i + 1 as int).drop_last() =~= badges@.take(i as int));
            assert(badges@.take(i + 1 as int).last() == badges@[i as int]);
        }
        let b = &badges[i];
        let hit = match (b.style, style) {
            (BadgeStyle::UpToDate, BadgeStyle::UpToDate) => true,
            (BadgeStyle::Outdated, BadgeStyle::Outdated) => true,
            (BadgeStyle::MajorDiff, BadgeStyle::MajorDiff) => true,
            _ => false,
        };
        if hit {
            let ghost old_deep = r.deep_view();
            r.push(b);
            proof {
                assert(r.deep_view() =~= old_deep.push(badges@[i as int]@));
            }
        }
        i = i + 1;
    }
    proof {
        assert(badges@.take(badges@.len() as int) =~= badges@);
    }
    r
}

/// The identifiers of the documents that hold a non-empty badge set: each
/// listed identifier is a key of the store's view, and every key with a
/// non-empty badge set is listed.
pub fn get_active_buffer_ids(manager: &DecorationManager) -> (r: Vec<String>)
    ensures
        r.deep_view() == active_ids_spec(records_view(manager.records())),
        forall|k: int| 0 <= k < r@.len() ==> manager@.contains_key((#[trigger] r@[k])@),
        forall|key: Seq<char>|
            #[trigger] manager@.contains_key(key) && manager@[key].len() > 0 ==> r.deep_view()
                .contains(key),
{
    manager.active_ids()
}

} // verus!

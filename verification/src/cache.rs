//! Key/value cache with a time-to-live, backing registry-result
//! memoization.
//!
//! The cache state is a map from keys of the form `{registry}@{package}`
//! to a value and its write time. A read of an entry older than the
//! time-to-live removes the entry and reports absence — eviction happens
//! on read, there is no background sweep. [`FileCache::cache_path`] gives
//! the storage path a key maps to when the state is persisted as one file
//! per package under one directory per registry.

use vstd::prelude::*;
use vstd::string::StringExecFns;
use crate::text::{chars_of, find_char, find_char_spec, string_of_range};

verus! {

/// `a - b`, saturating at zero.
pub open spec fn sat_sub(a: u64, b: u64) -> u64 {
    if a >= b {
        (a - b) as u64
    } else {
        0
    }
}

/// The map a sequence of (key, value, write time) records denotes; a later
/// record for the same key wins.
pub open spec fn entries_map(es: Seq<(String, String, u64)>) -> Map<Seq<char>, (Seq<char>, u64)>
    decreases es.len(),
{
    if es.len() == 0 {
        Map::empty()
    } else {
        entries_map(es.drop_last()).insert(es.last().0@, (es.last().1@, es.last().2))
    }
}

/// What a cache read yields and leaves behind: a missing key reports
/// absence; a fresh entry is returned, the cache unchanged; a stale entry
/// is removed and absence reported.
pub open spec fn cache_get_spec(
    m: Map<Seq<char>, (Seq<char>, u64)>,
    key: Seq<char>,
    now: u64,
    ttl: u64,
) -> (Option<Seq<char>>, Map<Seq<char>, (Seq<char>, u64)>) {
    if !m.contains_key(key) {
        (None, m)
    } else if sat_sub(now, m[key].1) <= ttl {
        (Some(m[key].0), m)
    } else {
        (None, m.remove(key))
    }
}

/// What a cache write leaves behind: the key now maps to the value and the
/// write time.
pub open spec fn cache_set_spec(
    m: Map<Seq<char>, (Seq<char>, u64)>,
    key: Seq<char>,
    value: Seq<char>,
    now: u64,
) -> Map<Seq<char>, (Seq<char>, u64)> {
    m.insert(key, (value, now))
}

/// The storage path for a key: `{registry}/{package}.json` for a key of
/// the form `{registry}@{package}`, else `{key}.json`.
pub open spec fn cache_path_spec(key: Seq<char>) -> Seq<char> {
    let i = find_char_spec(key, '@', 0);
    if 0 <= i < key.len() {
        key.take(i) + "/"@ + key.skip(i + 1) + ".json"@
    } else {
        key + ".json"@
    }
}

/// The records without those stored under `key`.
pub open spec fn without_key(es: Seq<(String, String, u64)>, key: Seq<char>) -> Seq<
    (String, String, u64),
>
    decreases es.len(),
{
    if es.len() == 0 {
        Seq::empty()
    } else {
        let p = without_key(es.drop_last(), key);
        if es.last().0@ == key {
            p
        } else {
            p.push(es.last())
        }
    }
}

/// Dropping a key's records removes exactly that key from the denoted map.
proof fn lemma_without_key(es: Seq<(String, String, u64)>, key: Seq<char>)
    ensures
        entries_map(without_key(es, key)) == entries_map(es).remove(key),
    decreases es.len(),
{
    if es.len() == 0 {
        assert(entries_map(es).remove(key) =~= Map::<Seq<char>, (Seq<char>, u64)>::empty());
    } else {
        lemma_without_key(es.drop_last(), key);
        let last = es.last();
        if last.0@ == key {
            assert(entries_map(es).remove(key) =~= entries_map(es.drop_last()).remove(key));
        } else {
            assert(without_key(es, key).drop_last() =~= without_key(es.drop_last(), key));
            assert(without_key(es, key).last() == last);
            assert(entries_map(es).remove(key) =~= entries_map(es.drop_last()).remove(key).insert(
                last.0@,
                (last.1@, last.2),
            ));
        }
    }
}

/// The last-stored record for a key, which is the one the denoted map
/// holds.
pub open spec fn last_entry(es: Seq<(String, String, u64)>, key: Seq<char>) -> Option<
    (Seq<char>, u64),
>
    decreases es.len(),
{
    if es.len() == 0 {
        None
    } else if es.last().0@ == key {
        Some((es.last().1@, es.last().2))
    } else {
        last_entry(es.drop_last(), key)
    }
}

proof fn lemma_last_entry(es: Seq<(String, String, u64)>, key: Seq<char>)
    ensures
        last_entry(es, key) matches Some(e) ==> entries_map(es).contains_key(key)
            && entries_map(es)[key] == e,
        last_entry(es, key) is None ==> !entries_map(es).contains_key(key),
    decreases es.len(),
{
    if es.len() > 0 && es.last().0@ != key {
        lemma_last_entry(es.drop_last(), key);
    }
}

/// The persistent result cache: a TTL'd key/value map.
pub struct FileCache {
    entries: Vec<(String, String, u64)>,
    ttl_secs: u64,
}

impl View for FileCache {
    type V = Map<Seq<char>, (Seq<char>, u64)>;

    closed spec fn view(&self) -> Map<Seq<char>, (Seq<char>, u64)> {
        entries_map(self.entries@)
    }
}

impl FileCache {
    /// The configured time-to-live, in seconds.
    pub closed spec fn ttl_spec(&self) -> u64 {
        self.ttl_secs
    }

    /// An empty cache with the given time-to-live.
    pub fn new(ttl_secs: u64) -> (r: Self)
        ensures
            r@ == Map::<Seq<char>, (Seq<char>, u64)>::empty(),
            r.ttl_spec() == ttl_secs,
    {
        let r = FileCache { entries: Vec::new(), ttl_secs };
        proof {
            assert(r@ =~= Map::<Seq<char>, (Seq<char>, u64)>::empty());
        }
        r
    }

    /// Removes every record stored under `key`.
    fn purge(&mut self, key: &str)
        ensures
            final(self)@ == old(self)@.remove(key@),
            final(self).ttl_spec() == old(self).ttl_spec(),
    {
        let ghost original = self.entries@;
        let mut kept: Vec<(String, String, u64)> = Vec::new();
        let mut i: usize = 0;
        proof {
            assert(kept@ =~= without_key(original.take(0), key@)) by {
                assert(original.take(0) =~= Seq::<(String, String, u64)>::empty());
            }
        }
        while i < self.entries.len()
            invariant
                i <= self.entries@.len(),
                self.entries@ == original,
                kept@ == without_key(original.take(i as int), key@),
            decreases self.entries@.len() - i,
        {
            proof {
                assert(original.take(i + 1 as int).drop_last() =~= original.take(i as int));
                assert(original.take(i + 1 as int).last() == original[i as int]);
            }
            let name = self.entries[i].0.clone();
            let value = self.entries[i].1.clone();
            let stamp = self.entries[i].2;
            if !crate::text::str_eq(name.as_str(), key) {
                kept.push((name, value, stamp));
            }
            i = i + 1;
        }
        proof {
            assert(original.take(original.len() as int) =~= original);
            lemma_without_key(original, key@);
        }
        self.entries = kept;
    }

    /// The cached value for `key` if it is present and no older than the
    /// time-to-live at `now`; a stale entry is removed.
    pub fn get_at(&mut self, key: &str, now: u64) -> (r: Option<String>)
        ensures
            r.deep_view() == cache_get_spec(old(self)@, key@, now, old(self).ttl_spec()).0,
            final(self)@ == cache_get_spec(old(self)@, key@, now, old(self).ttl_spec()).1,
            final(self).ttl_spec() == old(self).ttl_spec(),
    {
        proof {
            lemma_last_entry(self.entries@, key@);
        }
        let found = Self::find_last(&self.entries, key);
        match found {
            None => None,
            Some(entry) => {
                let age = if now >= entry.1 {
                    now - entry.1
                } else {
                    0
                };
                if age > self.ttl_secs {
                    self.purge(key);
                    None
                } else {
                    Some(entry.0)
                }
            },
        }
    }

    /// The last-stored record for `key`.
    fn find_last(entries: &Vec<(String, String, u64)>, key: &str) -> (r: Option<(String, u64)>)
        ensures
            r is Some <==> last_entry(entries@, key@) is Some,
            r matches Some(e) ==> last_entry(entries@, key@) == Some((e.0@, e.1)),
    {
        let mut k: usize = entries.len();
        proof {
            assert(entries@.take(k as int) =~= entries@);
        }
        while k > 0
            invariant
                k <= entries@.len(),
                last_entry(entries@, key@) == last_entry(entries@.take(k as int), key@),
            decreases k,
        {
            proof {
                assert(entries@.take(k as int).drop_last() =~= entries@.take(k - 1 as int));
                assert(entries@.take(k as int).last() == entries@[k - 1]);
            }
            if crate::text::str_eq(entries[k - 1].0.as_str(), key) {
                return Some((entries[k - 1].1.clone(), entries[k - 1].2));
            }
            k = k - 1;
        }
        None
    }

    /// Stores `value` under `key` at time `now`.
    pub fn set_at(&mut self, key: &str, value: &str, now: u64) -> (r: Result<(), String>)
        ensures
            r is Ok,
            final(self)@ == cache_set_spec(old(self)@, key@, value@, now),
            final(self).ttl_spec() == old(self).ttl_spec(),
    {
        self.purge(key);
        let ghost purged = self.entries@;
        self.entries.push((key.to_owned(), value.to_owned(), now));
        proof {
            assert(self.entries@.drop_last() =~= purged);
            assert(self.entries@.last().0@ == key@);
            assert(self.entries@.last().1@ == value@);
            assert(entries_map(self.entries@) == entries_map(purged).insert(
                key@,
                (value@, now),
            ));
            assert(entries_map(purged).insert(key@, (value@, now)) =~= cache_set_spec(
                old(self)@,
                key@,
                value@,
                now,
            ));
        }
        Ok(())
    }

    /// Whether `key` holds a fresh entry at `now`; a stale entry is
    /// removed, as a read does.
    pub fn is_valid_at(&mut self, key: &str, now: u64) -> (r: bool)
        ensures
            r == (cache_get_spec(old(self)@, key@, now, old(self).ttl_spec()).0 is Some),
            final(self)@ == cache_get_spec(old(self)@, key@, now, old(self).ttl_spec()).1,
            final(self).ttl_spec() == old(self).ttl_spec(),
    {
        let r = self.get_at(key, now);
        r.is_some()
    }

    /// The cached value for `key`, read at the current time.
    pub fn get(&mut self, key: &str) -> (r: Option<String>)
        ensures
            final(self).ttl_spec() == old(self).ttl_spec(),
            exists|now: u64|
                {
                    &&& r.deep_view() == (#[trigger] cache_get_spec(
                        old(self)@,
                        key@,
                        now,
                        old(self).ttl_spec(),
                    )).0
                    &&& final(self)@ == cache_get_spec(
                        old(self)@,
                        key@,
                        now,
                        old(self).ttl_spec(),
                    ).1
                },
    {
        let now = crate::clock::unix_now_secs();
        self.get_at(key, now)
    }

    /// Stores `value` under `key` at the current time.
    pub fn set(&mut self, key: &str, value: &str) -> (r: Result<(), String>)
        ensures
            r is Ok,
            final(self).ttl_spec() == old(self).ttl_spec(),
            exists|now: u64|
                final(self)@ == #[trigger] cache_set_spec(old(self)@, key@, value@, now),
    {
        let now = crate::clock::unix_now_secs();
        self.set_at(key, value, now)
    }

    /// Whether `key` holds a fresh entry at the current time.
    pub fn is_valid(&mut self, key: &str) -> (r: bool)
        ensures
            final(self).ttl_spec() == old(self).ttl_spec(),
            exists|now: u64|
                {
                    &&& r == ((#[trigger] cache_get_spec(
                        old(self)@,
                        key@,
                        now,
                        old(self).ttl_spec(),
                    )).0 is Some)
                    &&& final(self)@ == cache_get_spec(
                        old(self)@,
                        key@,
                        now,
                        old(self).ttl_spec(),
                    ).1
                },
    {
        let now = crate::clock::unix_now_secs();
        self.is_valid_at(key, now)
    }

    /// Removes every entry.
    pub fn clear(&mut self) -> (r: Result<(), String>)
        ensures
            r is Ok,
            final(self)@ == Map::<Seq<char>, (Seq<char>, u64)>::empty(),
            final(self).ttl_spec() == old(self).ttl_spec(),
    {
        self.entries = Vec::new();
        proof {
            assert(self@ =~= Map::<Seq<char>, (Seq<char>, u64)>::empty());
        }
        Ok(())
    }

    /// The storage path for a key: `{registry}/{package}.json` for a key
    /// of the form `{registry}@{package}`, else `{key}.json`.
    pub fn cache_path(&self, key: &str) -> (r: String)
        ensures
            r@ == cache_path_spec(key@),
    {
        let kv = chars_of(key);
        let i = find_char(&kv, '@', 0);
        if i < kv.len() {
            let mut s = string_of_range(&kv, 0, i);
            s.append("/");
            let rest = string_of_range(&kv, i + 1, kv.len());
            s.append(rest.as_str());
            s.append(".json");
            proof {
                assert(kv@.subrange(0, i as int) =~= kv@.take(i as int));
                assert(kv@.subrange(i + 1 as int, kv@.len() as int) =~= kv@.skip(i + 1 as int));
            }
            s
        } else {
            let mut s = key.to_owned();
            s.append(".json");
            s
        }
    }
}

/// Round trip: a value written at `t1` is read back unchanged at any `t2`
/// within the time-to-live, leaving the cache as written; a read past the
/// time-to-live reports absence and removes the entry.
pub proof fn lemma_cache_round_trip(
    m: Map<Seq<char>, (Seq<char>, u64)>,
    key: Seq<char>,
    value: Seq<char>,
    t1: u64,
    t2: u64,
    ttl: u64,
)
    ensures
        sat_sub(t2, t1) <= ttl ==> cache_get_spec(cache_set_spec(m, key, value, t1), key, t2, ttl)
            == (Some(value), cache_set_spec(m, key, value, t1)),
        sat_sub(t2, t1) > ttl ==> cache_get_spec(cache_set_spec(m, key, value, t1), key, t2, ttl)
            == (None::<Seq<char>>, m.remove(key)),
{
    let w = cache_set_spec(m, key, value, t1);
    assert(w.contains_key(key));
    assert(w[key] == (value, t1));
    if sat_sub(t2, t1) > ttl {
        assert(w.remove(key) =~= m.remove(key));
    }
}

} // verus!

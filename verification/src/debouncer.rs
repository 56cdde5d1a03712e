//! Per-key rate limiter preventing reprocessing a resource on every
//! keystroke.
//!
//! Each key remembers the instant of its last accepted action, in
//! milliseconds. A key with no record always proceeds; one whose last
//! accepted instant lies within the configured window is rejected without
//! updating state. Every time-dependent operation takes the current
//! instant as an argument and has a companion that reads the clock.

use vstd::prelude::*;
use crate::cache::sat_sub;
use crate::text::str_eq;

verus! {

/// The map a sequence of (key, instant) records denotes; a later record
/// for the same key wins.
pub open spec fn delays_map(es: Seq<(String, u64)>) -> Map<Seq<char>, u64>
    decreases es.len(),
{
    if es.len() == 0 {
        Map::empty()
    } else {
        delays_map(es.drop_last()).insert(es.last().0@, es.last().1)
    }
}

/// Whether an action on `key` proceeds at `now`: always for an unseen key,
/// otherwise only once the window has elapsed since the last accepted
/// action.
pub open spec fn proceed_spec(m: Map<Seq<char>, u64>, key: Seq<char>, now: u64, window: u64) -> bool {
    ||| !m.contains_key(key)
    ||| sat_sub(now, m[key]) >= window
}

/// The records without those stored under `key`.
pub open spec fn delays_without(es: Seq<(String, u64)>, key: Seq<char>) -> Seq<(String, u64)>
    decreases es.len(),
{
    if es.len() == 0 {
        Seq::empty()
    } else {
        let p = delays_without(es.drop_last(), key);
        if es.last().0@ == key {
            p
        } else {
            p.push(es.last())
        }
    }
}

proof fn lemma_delays_without(es: Seq<(String, u64)>, key: Seq<char>)
    ensures
        delays_map(delays_without(es, key)) == delays_map(es).remove(key),
    decreases es.len(),
{
    if es.len() == 0 {
        assert(delays_map(es).remove(key) =~= Map::<Seq<char>, u64>::empty());
    } else {
        lemma_delays_without(es.drop_last(), key);
        let last = es.last();
        if last.0@ == key {
            assert(delays_map(es).remove(key) =~= delays_map(es.drop_last()).remove(key));
        } else {
            assert(delays_without(es, key).drop_last() =~= delays_without(es.drop_last(), key));
            assert(delays_without(es, key).last() == last);
            assert(delays_map(es).remove(key) =~= delays_map(es.drop_last()).remove(key).insert(
                last.0@,
                last.1,
            ));
        }
    }
}

/// The last-stored instant for a key, which is the one the denoted map
/// holds.
pub open spec fn last_delay(es: Seq<(String, u64)>, key: Seq<char>) -> Option<u64>
    decreases es.len(),
{
    if es.len() == 0 {
        None
    } else if es.last().0@ == key {
        Some(es.last().1)
    } else {
        last_delay(es.drop_last(), key)
    }
}

proof fn lemma_last_delay(es: Seq<(String, u64)>, key: Seq<char>)
    ensures
        last_delay(es, key) matches Some(t) ==> delays_map(es).contains_key(key) && delays_map(es)[
            key
        ] == t,
        last_delay(es, key) is None ==> !delays_map(es).contains_key(key),
    decreases es.len(),
{
    if es.len() > 0 && es.last().0@ != key {
        lemma_last_delay(es.drop_last(), key);
    }
}

/// Debouncer: one last-accepted instant per key, with a fixed window.
pub struct Debouncer {
    delays: Vec<(String, u64)>,
    timeout_ms: u64,
}

impl View for Debouncer {
    type V = Map<Seq<char>, u64>;

    closed spec fn view(&self) -> Map<Seq<char>, u64> {
        delays_map(self.delays@)
    }
}

impl Debouncer {
    /// The configured window, in milliseconds.
    pub closed spec fn window_spec(&self) -> u64 {
        self.timeout_ms
    }

    /// A debouncer that must see `timeout_ms` elapse before the same key
    /// proceeds again.
    pub fn new(timeout_ms: u64) -> (r: Self)
        ensures
            r@ == Map::<Seq<char>, u64>::empty(),
            r.window_spec() == timeout_ms,
    {
        let r = Debouncer { delays: Vec::new(), timeout_ms };
        proof {
            assert(r@ =~= Map::<Seq<char>, u64>::empty());
        }
        r
    }

    /// The last-accepted instant recorded for `key`.
    fn find_last(&self, key: &str) -> (r: Option<u64>)
        ensures
            r == last_delay(self.delays@, key@),
    {
        let mut k: usize = self.delays.len();
        proof {
            assert(self.delays@.take(k as int) =~= self.delays@);
        }
        while k > 0
            invariant
                k <= self.delays@.len(),
                last_delay(self.delays@, key@) == last_delay(self.delays@.take(k as int), key@),
            decreases k,
        {
            proof {
                assert(self.delays@.take(k as int).drop_last() =~= self.delays@.take(
                    k - 1 as int,
                ));
                assert(self.delays@.take(k as int).last() == self.delays@[k - 1]);
            }
            if str_eq(self.delays[k - 1].0.as_str(), key) {
                return Some(self.delays[k - 1].1);
            }
            k = k - 1;
        }
        None
    }

    /// Removes every record stored under `key`.
    fn purge(&mut self, key: &str)
        ensures
            final(self)@ == old(self)@.remove(key@),
            final(self).window_spec() == old(self).window_spec(),
    {
        let ghost original = self.delays@;
        let mut kept: Vec<(String, u64)> = Vec::new();
        let mut i: usize = 0;
        proof {
            assert(kept@ =~= delays_without(original.take(0), key@)) by {
                assert(original.take(0) =~= Seq::<(String, u64)>::empty());
            }
        }
        while i < self.delays.len()
            invariant
                i <= self.delays@.len(),
                self.delays@ == original,
                kept@ == delays_without(original.take(i as int), key@),
            decreases self.delays@.len() - i,
        {
            proof {
                assert(original.take(i + 1 as int).drop_last() =~= original.take(i as int));
                assert(original.take(i + 1 as int).last() == original[i as int]);
            }
            let name = self.delays[i].0.clone();
            let stamp = self.delays[i].1;
            if !str_eq(name.as_str(), key) {
                kept.push((name, stamp));
            }
            i = i + 1;
        }
        proof {
            assert(original.take(original.len() as int) =~= original);
            lemma_delays_without(original, key@);
        }
        self.delays = kept;
    }

    /// Whether an action on `key` should proceed at instant `now`; on
    /// acceptance the key's instant is updated, on rejection nothing
    /// changes.
    pub fn should_proceed_at(&mut self, key: &str, now: u64) -> (r: bool)
        ensures
            r == proceed_spec(old(self)@, key@, now, old(self).window_spec()),
            r ==> final(self)@ == old(self)@.insert(key@, now),
            !r ==> final(self)@ == old(self)@,
            final(self).window_spec() == old(self).window_spec(),
    {
        proof {
            lemma_last_delay(self.delays@, key@);
        }
        match self.find_last(key) {
            Some(last) => {
                let elapsed = if now >= last {
                    now - last
                } else {
                    0
                };
                if elapsed < self.timeout_ms {
                    return false;
                }
            },
            None => {},
        }
        self.purge(key);
        let ghost purged = self.delays@;
        self.delays.push((key.to_owned(), now));
        proof {
            assert(self.delays@.drop_last() =~= purged);
            assert(self.delays@.last().0@ == key@);
            assert(delays_map(self.delays@) == delays_map(purged).insert(key@, now));
            assert(delays_map(purged).insert(key@, now) =~= old(self)@.insert(key@, now));
        }
        true
    }

    /// Whether an action on `key` should proceed now.
    pub fn should_proceed(&mut self, key: &str) -> (r: bool)
        ensures
            final(self).window_spec() == old(self).window_spec(),
            exists|now: u64|
                {
                    &&& r == #[trigger] proceed_spec(old(self)@, key@, now, old(self).window_spec())
                    &&& (r ==> final(self)@ == old(self)@.insert(key@, now))
                    &&& (!r ==> final(self)@ == old(self)@)
                },
    {
        let now = crate::clock::now_millis();
        self.should_proceed_at(key, now)
    }

    /// Forgets `key`, so its next action is guaranteed to proceed.
    pub fn reset(&mut self, key: &str)
        ensures
            final(self)@ == old(self)@.remove(key@),
            final(self).window_spec() == old(self).window_spec(),
    {
        self.purge(key);
    }

    /// Forgets every key.
    pub fn clear(&mut self)
        ensures
            final(self)@ == Map::<Seq<char>, u64>::empty(),
            final(self).window_spec() == old(self).window_spec(),
    {
        self.delays = Vec::new();
        proof {
            assert(self@ =~= Map::<Seq<char>, u64>::empty());
        }
    }

    /// Milliseconds left before `key` may proceed at instant `now`; absent
    /// when the key is unknown or ready.
    pub fn remaining_time_at(&self, key: &str, now: u64) -> (r: Option<u64>)
        ensures
            r == (if self@.contains_key(key@) && sat_sub(now, self@[key@]) < self.window_spec() {
                Some((self.window_spec() - sat_sub(now, self@[key@])) as u64)
            } else {
                None::<u64>
            }),
    {
        proof {
            lemma_last_delay(self.delays@, key@);
        }
        match self.find_last(key) {
            Some(last) => {
                let elapsed = if now >= last {
                    now - last
                } else {
                    0
                };
                if elapsed < self.timeout_ms {
                    Some(self.timeout_ms - elapsed)
                } else {
                    None
                }
            },
            None => None,
        }
    }

    /// Milliseconds left before `key` may proceed, read at the current
    /// instant.
    pub fn remaining_time(&self, key: &str) -> (r: Option<u64>)
        ensures
            !self@.contains_key(key@) ==> r is None,
    {
        let now = crate::clock::now_millis();
        self.remaining_time_at(key, now)
    }

    /// Whether `key` is inside its window at instant `now`.
    pub fn is_debounced_at(&self, key: &str, now: u64) -> (r: bool)
        ensures
            r == (self@.contains_key(key@) && sat_sub(now, self@[key@]) < self.window_spec()),
    {
        proof {
            lemma_last_delay(self.delays@, key@);
        }
        match self.find_last(key) {
            Some(last) => {
                let elapsed = if now >= last {
                    now - last
                } else {
                    0
                };
                elapsed < self.timeout_ms
            },
            None => false,
        }
    }

    /// Whether `key` is inside its window at the current instant.
    pub fn is_debounced(&self, key: &str) -> (r: bool)
        ensures
            !self@.contains_key(key@) ==> r == false,
    {
        let now = crate::clock::now_millis();
        self.is_debounced_at(key, now)
    }
}

impl Default for Debouncer {
    /// The default debouncer uses a 500 ms window.
    fn default() -> (r: Self)
        ensures
            r@ == Map::<Seq<char>, u64>::empty(),
            r.window_spec() == 500,
    {
        Debouncer::new(500)
    }
}

/// Two actions on one key in rapid succession: the first proceeds, and a
/// second within the window — on the state the first left behind — is
/// rejected and changes nothing.
pub proof fn lemma_debounce_rapid_succession(
    m: Map<Seq<char>, u64>,
    key: Seq<char>,
    t1: u64,
    t2: u64,
    window: u64,
)
    requires
        proceed_spec(m, key, t1, window),
        t1 <= t2,
        sat_sub(t2, t1) < window,
    ensures
        !proceed_spec(m.insert(key, t1), key, t2, window),
{
    assert(m.insert(key, t1)[key] == t1);
}

} // verus!

//! The cache store: a mapping from URL (fragment included) to the
//! freshness-stamped outcome of the most recent live check of that key.
//!
//! An entry is trusted — it short-circuits a live check — only while it is
//! both marked valid and younger than the caller's freshness timeout. A
//! stale or failed entry never short-circuits: failures may be transient,
//! while positives are assumed durable within the timeout window.

use crate::url::{url_eq, Url, UrlModel};
use vstd::prelude::*;

verus! {

/// The outcome of the most recent live check for one cache key, stamped
/// with the time at which the check was made.
#[derive(Clone, Copy, PartialEq, Eq, Structural, Debug)]
pub struct CacheEntry {
    /// When the live check happened, in milliseconds since some fixed epoch.
    pub checked_at: u64,
    /// Whether the live check succeeded.
    pub valid: bool,
}

impl CacheEntry {
    /// Build an entry from its timestamp and verdict.
    pub fn new(checked_at: u64, valid: bool) -> (r: CacheEntry)
        ensures
            r == (CacheEntry { checked_at, valid }),
    {
        CacheEntry { checked_at, valid }
    }
}

/// Whether an entry may still be trusted at time `now` under the given
/// freshness timeout: it must record a success and be younger than the
/// timeout. The subtraction is over the unbounded integers, so an entry
/// stamped later than `now` counts as fresh rather than wrapping around.
pub open spec fn entry_fresh_valid(e: CacheEntry, now: u64, timeout: u64) -> bool {
    e.valid && now - e.checked_at < timeout
}

/// Whether the mapping holds a still-trusted entry for the key.
pub open spec fn cache_hit(m: Map<UrlModel, CacheEntry>, k: UrlModel, now: u64, timeout: u64) -> bool {
    m.contains_key(k) && entry_fresh_valid(m[k], now, timeout)
}

/// The mapping described by an association list, later pairs winning.
pub open spec fn entries_model(s: Seq<(Url, CacheEntry)>) -> Map<UrlModel, CacheEntry>
    decreases s.len(),
{
    if s.len() == 0 {
        Map::empty()
    } else {
        entries_model(s.drop_last()).insert(s.last().0@, s.last().1)
    }
}

/// The cache store itself. At most one entry is held per key: an insert
/// for an already-present key replaces the old entry whole.
pub struct CacheStore {
    entries: Vec<(Url, CacheEntry)>,
}

impl View for CacheStore {
    type V = Map<UrlModel, CacheEntry>;

    closed spec fn view(&self) -> Map<UrlModel, CacheEntry> {
        entries_model(self.entries@)
    }
}

/// No two pairs of the list share a key.
pub open spec fn distinct_keys(s: Seq<(Url, CacheEntry)>) -> bool {
    forall|i: int, j: int| 0 <= i < j < s.len() ==> s[i].0@ != s[j].0@
}

proof fn lemma_model_absent(s: Seq<(Url, CacheEntry)>, k: UrlModel)
    requires
        forall|i: int| 0 <= i < s.len() ==> s[i].0@ != k,
    ensures
        !entries_model(s).contains_key(k),
    decreases s.len(),
{
    if s.len() > 0 {
        assert forall|i: int| 0 <= i < s.drop_last().len() implies s.drop_last()[i].0@ != k by {
            assert(s.drop_last()[i] == s[i]);
        }
        lemma_model_absent(s.drop_last(), k);
    }
}

proof fn lemma_model_found(s: Seq<(Url, CacheEntry)>, i: int)
    requires
        distinct_keys(s),
        0 <= i < s.len(),
    ensures
        entries_model(s).contains_pair(s[i].0@, s[i].1),
    decreases s.len(),
{
    if i < s.len() - 1 {
        assert(distinct_keys(s.drop_last())) by {
            assert forall|a: int, b: int|
                0 <= a < b < s.drop_last().len() implies s.drop_last()[a].0@ != s.drop_last()[b].0@ by {
                assert(s.drop_last()[a] == s[a]);
                assert(s.drop_last()[b] == s[b]);
            }
        }
        lemma_model_found(s.drop_last(), i);
        assert(s.drop_last()[i] == s[i]);
        assert(s[i].0@ != s.last().0@);
    }
}

proof fn lemma_model_remove(s: Seq<(Url, CacheEntry)>, j: int)
    requires
        distinct_keys(s),
        0 <= j < s.len(),
    ensures
        entries_model(s.remove(j)) =~= entries_model(s).remove(s[j].0@),
    decreases s.len(),
{
    let k = s[j].0@;
    if j == s.len() - 1 {
        assert(s.remove(j) =~= s.drop_last());
        assert forall|i: int| 0 <= i < s.drop_last().len() implies s.drop_last()[i].0@ != k by {
            assert(s.drop_last()[i] == s[i]);
        }
        lemma_model_absent(s.drop_last(), k);
        assert(entries_model(s).remove(k) =~= entries_model(s.drop_last()));
    } else {
        assert(distinct_keys(s.drop_last())) by {
            assert forall|a: int, b: int|
                0 <= a < b < s.drop_last().len() implies s.drop_last()[a].0@ != s.drop_last()[b].0@ by {
                assert(s.drop_last()[a] == s[a]);
                assert(s.drop_last()[b] == s[b]);
            }
        }
        assert(s.drop_last()[j] == s[j]);
        lemma_model_remove(s.drop_last(), j);
        assert(s.remove(j).drop_last() =~= s.drop_last().remove(j));
        assert(s.remove(j).last() == s.last());
        assert(s.last().0@ != k);
        assert(entries_model(s.remove(j)) ==
            entries_model(s.drop_last().remove(j)).insert(s.last().0@, s.last().1));
        assert(entries_model(s.remove(j)) =~=
            entries_model(s).remove(k));
    }
}

impl CacheStore {
    /// The store is well formed: it holds at most one entry per key.
    pub closed spec fn wf(&self) -> bool {
        distinct_keys(self.entries@)
    }

    /// An empty store.
    pub fn new() -> (r: CacheStore)
        ensures
            r.wf(),
            r@ == Map::<UrlModel, CacheEntry>::empty(),
    {
        CacheStore { entries: Vec::new() }
    }

    /// Look the key up, regardless of freshness.
    pub fn lookup(&self, url: &Url) -> (r: Option<CacheEntry>)
        requires
            self.wf(),
        ensures
            r == (if self@.contains_key(url@) {
                Some(self@[url@])
            } else {
                None::<CacheEntry>
            }),
    {
        let n = self.entries.len();
        let mut i: usize = 0;
        while i < n
            invariant
                self.wf(),
                n == self.entries@.len(),
                0 <= i <= n,
                forall|j: int| 0 <= j < i ==> self.entries@[j].0@ != url@,
            decreases n - i,
        {
            if url_eq(&self.entries[i].0, url) {
                proof {
                    lemma_model_found(self.entries@, i as int);
                }
                return Some(self.entries[i].1);
            }
            i += 1;
        }
        proof {
            lemma_model_absent(self.entries@, url@);
        }
        None
    }

    /// Insert the entry for the key, replacing whatever was held before.
    /// Every insert is a complete entry, never a partial merge.
    pub fn insert(&mut self, url: &Url, entry: CacheEntry)
        requires
            old(self).wf(),
        ensures
            final(self).wf(),
            final(self)@ == old(self)@.insert(url@, entry),
    {
        let ghost s0 = self.entries@;
        let n = self.entries.len();
        let mut i: usize = 0;
        let mut found: Option<usize> = None;
        while i < n
            invariant
                self.entries@ == s0,
                n == s0.len(),
                0 <= i <= n,
                match found {
                    Some(j) => 0 <= j < i && j < n && s0[j as int].0@ == url@,
                    None => forall|j: int| 0 <= j < i ==> s0[j].0@ != url@,
                },
            decreases n - i,
        {
            if found.is_none() && url_eq(&self.entries[i].0, url) {
                found = Some(i);
            }
            i += 1;
        }
        proof {
            if found is None {
                lemma_model_absent(s0, url@);
            }
        }
        match found {
            Some(j) => {
                proof {
                    lemma_model_remove(s0, j as int);
                    lemma_remove_keeps_distinct(s0, j as int);
                }
                self.entries.remove(j);
                let ghost s1 = self.entries@;
                self.entries.push((url.duplicate(), entry));
                proof {
                    assert(self.entries@.drop_last() =~= s1);
                    assert(entries_model(self.entries@) ==
                        entries_model(s1).insert(url@, entry));
                    assert(entries_model(self.entries@) =~= entries_model(s0).insert(url@, entry));
                    assert forall|a: int, b: int|
                        0 <= a < b < self.entries@.len() implies self.entries@[a].0@
                        != self.entries@[b].0@ by {
                        assert(self.entries@[a] == s1[a]);
                        if b < self.entries@.len() - 1 {
                            assert(self.entries@[b] == s1[b]);
                            assert(s1[a].0@ != s1[b].0@);
                        } else {
                            lemma_remove_drops_key(s0, j as int, a);
                            assert(s1[a].0@ != s0[j as int].0@);
                            assert(self.entries@[b].0@ == url@);
                        }
                    }
                }
            },
            None => {
                self.entries.push((url.duplicate(), entry));
                proof {
                    assert(self.entries@.drop_last() =~= s0);
                    assert(entries_model(self.entries@) ==
                        entries_model(s0).insert(url@, entry));
                    assert forall|a: int, b: int|
                        0 <= a < b < self.entries@.len() implies self.entries@[a].0@
                        != self.entries@[b].0@ by {
                        if b < self.entries@.len() - 1 {
                            assert(s0[a] == self.entries@[a]);
                            assert(s0[b] == self.entries@[b]);
                        } else {
                            assert(self.entries@[a] == s0[a]);
                        }
                    }
                }
            },
        }
    }

    /// Whether the key's entry may still be trusted at time `now`: present,
    /// recorded as valid, and younger than the freshness timeout. Absent,
    /// stale and failed entries all answer `false` alike — the caller must
    /// recheck in every one of those states.
    pub fn url_is_still_valid(&self, url: &Url, now: u64, timeout: u64) -> (r: bool)
        requires
            self.wf(),
        ensures
            r == cache_hit(self@, url@, now, timeout),
    {
        match self.lookup(url) {
            Some(e) => e.valid && (now < e.checked_at || now - e.checked_at < timeout),
            None => false,
        }
    }
}

proof fn lemma_remove_keeps_distinct(s: Seq<(Url, CacheEntry)>, j: int)
    requires
        distinct_keys(s),
        0 <= j < s.len(),
    ensures
        distinct_keys(s.remove(j)),
{
    assert forall|a: int, b: int|
        0 <= a < b < s.remove(j).len() implies s.remove(j)[a].0@ != s.remove(j)[b].0@ by {
        let a0 = if a < j { a } else { a + 1 };
        let b0 = if b < j { b } else { b + 1 };
        assert(s.remove(j)[a] == s[a0]);
        assert(s.remove(j)[b] == s[b0]);
    }
}

proof fn lemma_remove_drops_key(s: Seq<(Url, CacheEntry)>, j: int, a: int)
    requires
        distinct_keys(s),
        0 <= j < s.len(),
        0 <= a < s.remove(j).len(),
    ensures
        s.remove(j)[a].0@ != s[j].0@,
{
    let a0 = if a < j { a } else { a + 1 };
    assert(s.remove(j)[a] == s[a0]);
}

} // verus!

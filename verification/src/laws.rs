//! The checker's guarantees, stated and proved over the same models that
//! the executable functions' contracts use: freshness is a sharp window,
//! negative entries never short-circuit, routing follows the fragment, and
//! the exhaustive scan turns sibling anchors into cache hits.

use crate::cache::{cache_hit, entry_fresh_valid, CacheEntry};
use crate::checker::{plan_of, spec_already_valid, with_anchor_entries, Plan};
use crate::url::UrlModel;
use vstd::prelude::*;

verus! {

/// Freshness is monotone in time: an entry checked at `checked_at` is a
/// cache hit at every time strictly before `checked_at + timeout`, and a
/// miss from that moment on.
pub proof fn lemma_freshness_monotonicity(
    m: Map<UrlModel, CacheEntry>,
    k: UrlModel,
    checked_at: u64,
    timeout: u64,
    later: u64,
)
    requires
        m.contains_pair(k, (CacheEntry { checked_at, valid: true })),
    ensures
        cache_hit(m, k, later, timeout) <==> later < checked_at + timeout,
{
}

/// A negative or expired result never short-circuits: when the entry held
/// for a key is not both valid and fresh, the plan for that key is a live
/// probe, never the cached success.
pub proof fn lemma_negative_never_short_circuits(
    m: Map<UrlModel, CacheEntry>,
    k: UrlModel,
    now: u64,
    timeout: u64,
)
    requires
        m.contains_key(k),
        !entry_fresh_valid(m[k], now, timeout),
    ensures
        plan_of(Some(m), k, now, timeout) != Plan::CachedOk,
        k.fragment is None ==> plan_of(Some(m), k, now, timeout) == Plan::NeedHead,
        k.fragment is Some ==> plan_of(Some(m), k, now, timeout) == Plan::NeedPage,
{
}

/// Routing follows the fragment: whenever the cache does not short-circuit
/// the check, a URL without a fragment is probed by exactly a HEAD request
/// (no body), and a URL with a fragment by exactly a GET of the page.
pub proof fn lemma_fragment_routing(
    m: Option<Map<UrlModel, CacheEntry>>,
    k: UrlModel,
    now: u64,
    timeout: u64,
)
    requires
        !spec_already_valid(m, k, now, timeout),
    ensures
        k.fragment is None ==> plan_of(m, k, now, timeout) == Plan::NeedHead,
        k.fragment is Some ==> plan_of(m, k, now, timeout) == Plan::NeedPage,
{
}

/// Every id discovered by a scan is afterwards held as a fresh-valid entry
/// under the key "base URL with that id as fragment".
pub proof fn lemma_anchor_entries_present(
    m: Map<UrlModel, CacheEntry>,
    base: Seq<char>,
    ids: Seq<Seq<char>>,
    now: u64,
    i: int,
)
    requires
        0 <= i < ids.len(),
    ensures
        with_anchor_entries(m, base, ids, now).contains_pair(
            (UrlModel { base, fragment: Some(ids[i]) }),
            (CacheEntry { checked_at: now, valid: true }),
        ),
    decreases ids.len(),
{
    if i < ids.len() - 1 {
        lemma_anchor_entries_present(m, base, ids.drop_last(), now, i);
        assert(ids.drop_last()[i] == ids[i]);
    }
}

/// Exhaustive caching amortizes: after a scan of a page has recorded its
/// ids at time `now`, a later check of any of those anchors within the
/// freshness window is a cache hit, producing no network activity.
pub proof fn lemma_exhaustive_caching(
    m: Map<UrlModel, CacheEntry>,
    base: Seq<char>,
    ids: Seq<Seq<char>>,
    now: u64,
    i: int,
    later: u64,
    timeout: u64,
)
    requires
        0 <= i < ids.len(),
        later - now < timeout,
    ensures
        plan_of(
            Some(with_anchor_entries(m, base, ids, now)),
            (UrlModel { base, fragment: Some(ids[i]) }),
            later,
            timeout,
        ) == Plan::CachedOk,
{
    lemma_anchor_entries_present(m, base, ids, now, i);
}

/// Idempotence of a successful check: once a live check has recorded a
/// valid entry for a key at time `now`, every repeated check of that key
/// within the freshness window is a cache hit and needs no further probe.
pub proof fn lemma_idempotence(
    m: Map<UrlModel, CacheEntry>,
    k: UrlModel,
    now: u64,
    later: u64,
    timeout: u64,
)
    requires
        later - now < timeout,
    ensures
        plan_of(
            Some(m.insert(k, (CacheEntry { checked_at: now, valid: true }))),
            k,
            later,
            timeout,
        ) == Plan::CachedOk,
{
}

} // verus!

//! The link checker's decisions: cache hit versus live check, HEAD versus
//! GET routing, and the cache writes made after a probe or a page scan.
//!
//! The network calls themselves belong to the caller, which follows the
//! plan returned by [`plan_check`] and hands each outcome back to the
//! functions here. A fresh-valid cache entry short-circuits every probe; a
//! URL without a fragment needs one HEAD request and no body; a URL with a
//! fragment needs one GET of the unfragmented page, whose body is then
//! scanned for the anchor.

use crate::cache::{cache_hit, CacheEntry, CacheStore};
use crate::scanner::{doc_ids, element_ids, string_views};
use crate::url::{opt_str_view, Url, UrlModel};
use vstd::prelude::*;

verus! {

/// Why a check failed: the live probe failed or returned a non-success
/// status, or the page was fetched but the requested anchor is not on it
/// (or the page could not be meaningfully parsed).
#[derive(Clone, Copy, PartialEq, Eq, Structural, Debug)]
pub enum Reason {
    /// Transport failure or bad status code of a live probe.
    Http,
    /// The page was fetched, but the requested anchor was not found.
    Dom,
}

/// What the checker must do next for a given URL and cache state.
#[derive(Clone, Copy, PartialEq, Eq, Structural, Debug)]
pub enum Plan {
    /// A fresh-valid cache entry exists: succeed with no network activity.
    CachedOk,
    /// No fragment: issue one HEAD request for the URL, no body needed.
    NeedHead,
    /// A fragment is present: issue one GET for the unfragmented page and
    /// scan its body for the anchor.
    NeedPage,
}

/// The view of an optional cache store: `None` when the caller supplied no
/// cache, in which case every check is live.
pub open spec fn opt_cache_view(cache: Option<&CacheStore>) -> Option<Map<UrlModel, CacheEntry>> {
    match cache {
        Some(c) => Some(c@),
        None => None,
    }
}

/// Whether the cache state lets the check succeed without a live probe:
/// only a present, verified-valid, still-fresh entry does.
pub open spec fn spec_already_valid(
    m: Option<Map<UrlModel, CacheEntry>>,
    k: UrlModel,
    now: u64,
    timeout: u64,
) -> bool {
    match m {
        Some(mm) => cache_hit(mm, k, now, timeout),
        None => false,
    }
}

/// The plan for one check: trust a fresh-valid entry, else route on the
/// presence of a fragment.
pub open spec fn plan_of(
    m: Option<Map<UrlModel, CacheEntry>>,
    k: UrlModel,
    now: u64,
    timeout: u64,
) -> Plan {
    if spec_already_valid(m, k, now, timeout) {
        Plan::CachedOk
    } else if k.fragment is Some {
        Plan::NeedPage
    } else {
        Plan::NeedHead
    }
}

/// The cache after writing one fresh-valid entry per discovered id, each
/// under the key "base URL with that id as fragment", later ids winning.
pub open spec fn with_anchor_entries(
    m: Map<UrlModel, CacheEntry>,
    base: Seq<char>,
    ids: Seq<Seq<char>>,
    now: u64,
) -> Map<UrlModel, CacheEntry>
    decreases ids.len(),
{
    if ids.len() == 0 {
        m
    } else {
        with_anchor_entries(m, base, ids.drop_last(), now).insert(
            (UrlModel { base, fragment: Some(ids.last()) }),
            (CacheEntry { checked_at: now, valid: true }),
        )
    }
}

/// Whether the cache, if one is present, says the URL is still valid.
pub fn already_valid(cache: Option<&CacheStore>, url: &Url, now: u64, timeout: u64) -> (r: bool)
    requires
        cache matches Some(c) ==> c.wf(),
    ensures
        r == spec_already_valid(opt_cache_view(cache), url@, now, timeout),
{
    match cache {
        Some(c) => c.url_is_still_valid(url, now, timeout),
        None => false,
    }
}

/// Decide what one check of `url` must do against the current cache state.
pub fn plan_check(cache: Option<&CacheStore>, url: &Url, now: u64, timeout: u64) -> (r: Plan)
    requires
        cache matches Some(c) ==> c.wf(),
    ensures
        r == plan_of(opt_cache_view(cache), url@, now, timeout),
{
    if already_valid(cache, url, now, timeout) {
        Plan::CachedOk
    } else if url.has_fragment() {
        Plan::NeedPage
    } else {
        Plan::NeedHead
    }
}

/// Record the outcome of a live probe of `url`: one complete entry,
/// stamped `now`, replacing whatever the key held.
pub fn update_cache(cache: &mut CacheStore, url: &Url, now: u64, valid: bool)
    requires
        old(cache).wf(),
    ensures
        final(cache).wf(),
        final(cache)@ == old(cache)@.insert(url@, (CacheEntry { checked_at: now, valid })),
{
    cache.insert(url, CacheEntry::new(now, valid));
}

/// Turn a HEAD probe's verdict into the check's result: success exactly
/// when the probe succeeded, failure classified as an HTTP failure.
pub fn head_outcome(ok: bool) -> (r: Result<(), Reason>)
    ensures
        ok ==> r == Ok::<(), Reason>(()),
        !ok ==> r == Err::<(), Reason>(Reason::Http),
{
    if ok {
        Ok(())
    } else {
        Err(Reason::Http)
    }
}

/// Write a fresh-valid entry for `url` with its fragment replaced by
/// `fragment`: `None` marks the whole page as satisfied, `Some(id)` marks
/// one anchor on it.
pub fn cache_url_fragment(cache: &mut CacheStore, url: &Url, fragment: Option<&str>, now: u64)
    requires
        old(cache).wf(),
    ensures
        final(cache).wf(),
        final(cache)@ == old(cache)@.insert(
            (UrlModel { base: url@.base, fragment: opt_str_view(fragment) }),
            (CacheEntry { checked_at: now, valid: true }),
        ),
{
    let key = url.replace_fragment(fragment);
    cache.insert(&key, CacheEntry::new(now, true));
}

/// Scan the fetched page for the requested anchor, writing one fresh-valid
/// entry for every id found so that later checks of sibling anchors become
/// cache hits. Succeeds exactly when the anchor is among the page's ids;
/// otherwise the anchor-missing failure comes back.
pub fn check_fragment_body(
    cache: &mut CacheStore,
    url: &Url,
    fragment: &str,
    now: u64,
    body: &[u8],
) -> (r: Result<(), Reason>)
    requires
        old(cache).wf(),
        url@.fragment == Some(fragment@),
    ensures
        final(cache).wf(),
        r == (if doc_ids(body@).contains(fragment@) {
            Ok::<(), Reason>(())
        } else {
            Err::<(), Reason>(Reason::Dom)
        }),
        final(cache)@ == with_anchor_entries(old(cache)@, url@.base, doc_ids(body@), now),
{
    let ids = element_ids(body);
    let ghost m0 = cache@;
    let ghost idseq = string_views(ids@);
    let found = crate::scanner::find_id(&ids, fragment);
    let n = ids.len();
    let mut i: usize = 0;
    while i < n
        invariant
            old(cache).wf(),
            cache.wf(),
            n == ids@.len(),
            0 <= i <= n,
            idseq == string_views(ids@),
            cache@ == with_anchor_entries(m0, url@.base, idseq.take(i as int), now),
        decreases n - i,
    {
        let anchor = url.replace_fragment(Some(ids[i].as_str()));
        cache.insert(&anchor, CacheEntry::new(now, true));
        proof {
            assert(idseq.take(i + 1).drop_last() =~= idseq.take(i as int));
            assert(idseq.take(i + 1).last() == idseq[i as int]);
            assert(idseq[i as int] == ids@[i as int]@);
            assert(cache@ == with_anchor_entries(m0, url@.base, idseq.take(i + 1), now));
        }
        i += 1;
    }
    proof {
        assert(idseq.take(n as int) =~= idseq);
    }
    if found {
        Ok(())
    } else {
        Err(Reason::Dom)
    }
}

/// The no-cache form of the anchor check: visit the ids in document order,
/// stopping at the first match, and record nothing.
pub fn check_fragment_body_uncached(url: &Url, fragment: &str, body: &[u8]) -> (r: Result<
    (),
    Reason,
>)
    requires
        url@.fragment == Some(fragment@),
    ensures
        r == (if doc_ids(body@).contains(fragment@) {
            Ok::<(), Reason>(())
        } else {
            Err::<(), Reason>(Reason::Dom)
        }),
{
    let ids = element_ids(body);
    if crate::scanner::find_id(&ids, fragment) {
        Ok(())
    } else {
        Err(Reason::Dom)
    }
}

} // verus!

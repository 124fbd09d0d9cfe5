//! Probe planning: cache hits short-circuit, negative and stale entries
//! never do, and routing follows the fragment.

use linkcheck::cache::{CacheEntry, CacheStore};
use linkcheck::checker::{already_valid, head_outcome, plan_check, update_cache, Plan, Reason};
use linkcheck::url::Url;

fn plain(base: &str) -> Url {
    Url::new(base.to_string(), None)
}

fn with_fragment(base: &str, fragment: &str) -> Url {
    Url::new(base.to_string(), Some(fragment.to_string()))
}

#[test]
fn no_cache_routes_plain_url_to_head() {
    let url = plain("https://ex.org/docs");
    assert_eq!(plan_check(None, &url, 0, 1000), Plan::NeedHead);
}

#[test]
fn no_cache_routes_fragment_url_to_get() {
    let url = with_fragment("https://ex.org/guide", "install");
    assert_eq!(plan_check(None, &url, 0, 1000), Plan::NeedPage);
}

#[test]
fn empty_cache_routes_like_no_cache() {
    let store = CacheStore::new();
    let plain_url = plain("https://ex.org/docs");
    let frag_url = with_fragment("https://ex.org/guide", "install");
    assert_eq!(plan_check(Some(&store), &plain_url, 0, 1000), Plan::NeedHead);
    assert_eq!(plan_check(Some(&store), &frag_url, 0, 1000), Plan::NeedPage);
}

#[test]
fn fresh_valid_entry_short_circuits() {
    let mut store = CacheStore::new();
    let url = plain("https://ex.org/docs");
    update_cache(&mut store, &url, 100, true);
    assert_eq!(plan_check(Some(&store), &url, 120, 50), Plan::CachedOk);
}

#[test]
fn stale_valid_entry_is_rechecked() {
    let mut store = CacheStore::new();
    let url = plain("https://ex.org/docs");
    update_cache(&mut store, &url, 100, true);
    assert_eq!(plan_check(Some(&store), &url, 150, 50), Plan::NeedHead);
}

#[test]
fn failed_entry_never_short_circuits() {
    let mut store = CacheStore::new();
    let url = plain("https://ex.org/docs");
    let frag_url = with_fragment("https://ex.org/guide", "a");
    update_cache(&mut store, &url, 100, false);
    update_cache(&mut store, &frag_url, 100, false);
    assert_eq!(plan_check(Some(&store), &url, 101, 1000), Plan::NeedHead);
    assert_eq!(plan_check(Some(&store), &frag_url, 101, 1000), Plan::NeedPage);
}

#[test]
fn already_valid_needs_a_cache_and_a_fresh_entry() {
    let url = plain("https://ex.org/docs");
    assert!(!already_valid(None, &url, 0, u64::MAX));
    let mut store = CacheStore::new();
    assert!(!already_valid(Some(&store), &url, 0, 1000));
    store.insert(&url, CacheEntry::new(100, true));
    assert!(already_valid(Some(&store), &url, 120, 50));
    assert!(!already_valid(Some(&store), &url, 160, 50));
}

#[test]
fn head_outcome_maps_status_to_result() {
    assert_eq!(head_outcome(true), Ok(()));
    assert_eq!(head_outcome(false), Err(Reason::Http));
}

#[test]
fn scenario_docs_not_found_is_probed_again() {
    // A HEAD probe of https://ex.org/docs answers 404; the failure is
    // recorded, yet a second check within the timeout probes again rather
    // than reusing the failed entry, and fails the same way.
    let mut store = CacheStore::new();
    let url = plain("https://ex.org/docs");
    let mut probes = 0;

    let mut check = |store: &mut CacheStore, now: u64, probes: &mut u32| -> Result<(), Reason> {
        match plan_check(Some(store), &url, now, 1000) {
            Plan::CachedOk => Ok(()),
            Plan::NeedHead => {
                *probes += 1;
                let ok = false; // the probe returns 404
                update_cache(store, &url, now, ok);
                head_outcome(ok)
            },
            Plan::NeedPage => panic!("a plain URL must not be routed to GET"),
        }
    };

    assert_eq!(check(&mut store, 100, &mut probes), Err(Reason::Http));
    assert_eq!(probes, 1);
    assert_eq!(check(&mut store, 110, &mut probes), Err(Reason::Http));
    assert_eq!(probes, 2);
}

#[test]
fn repeated_successful_check_is_idempotent_without_probes() {
    // After one successful live check, repeated checks of the same URL
    // within the freshness window return the same result with no probe.
    let mut store = CacheStore::new();
    let url = plain("https://ex.org/docs");
    let mut probes = 0;

    let mut check = |store: &mut CacheStore, now: u64, probes: &mut u32| -> Result<(), Reason> {
        match plan_check(Some(store), &url, now, 1000) {
            Plan::CachedOk => Ok(()),
            Plan::NeedHead => {
                *probes += 1;
                let ok = true; // the probe succeeds
                update_cache(store, &url, now, ok);
                head_outcome(ok)
            },
            Plan::NeedPage => panic!("a plain URL must not be routed to GET"),
        }
    };

    assert_eq!(check(&mut store, 100, &mut probes), Ok(()));
    assert_eq!(probes, 1);
    assert_eq!(check(&mut store, 500, &mut probes), Ok(()));
    assert_eq!(check(&mut store, 1099, &mut probes), Ok(()));
    assert_eq!(probes, 1);
}

//! The anchor scanner and the fragment check over real parsed HTML.

use linkcheck::cache::{CacheEntry, CacheStore};
use linkcheck::checker::{
    cache_url_fragment, check_fragment_body, check_fragment_body_uncached, plan_check, Plan,
    Reason,
};
use linkcheck::scanner::{element_ids, find_id};
use linkcheck::url::Url;

const GUIDE: &[u8] = b"<html><body>\
    <h1 id=\"intro\">Intro</h1>\
    <p>Some text</p>\
    <h2 id=\"install\">Install</h2>\
    <h2 id=\"usage\">Usage</h2>\
    </body></html>";

fn with_fragment(base: &str, fragment: &str) -> Url {
    Url::new(base.to_string(), Some(fragment.to_string()))
}

#[test]
fn element_ids_come_back_in_document_order() {
    let ids = element_ids(GUIDE);
    assert_eq!(ids, vec!["intro".to_string(), "install".to_string(), "usage".to_string()]);
}

#[test]
fn element_ids_ignores_other_attributes_and_text() {
    let html = b"<div class=\"id\" name=\"intro\">id install</div>";
    let ids = element_ids(html);
    assert_eq!(ids, Vec::<String>::new());
}

#[test]
fn malformed_html_still_parses_permissively() {
    let html = b"<div id=\"outer\"><p id=\"inner\">unclosed";
    let ids = element_ids(html);
    assert_eq!(ids, vec!["outer".to_string(), "inner".to_string()]);
}

#[test]
fn find_id_reports_membership() {
    let ids = vec!["intro".to_string(), "install".to_string()];
    assert!(find_id(&ids, "install"));
    assert!(!find_id(&ids, "missing"));
    assert!(!find_id(&Vec::new(), "anything"));
}

#[test]
fn scenario_guide_install_found_and_all_anchors_cached() {
    // https://ex.org/guide#install: the page is fetched, its ids are
    // {intro, install, usage}; the check succeeds and the cache afterwards
    // holds fresh-valid entries for every one of the three anchors.
    let mut store = CacheStore::new();
    let url = with_fragment("https://ex.org/guide", "install");
    let result = check_fragment_body(&mut store, &url, "install", 100, GUIDE);
    assert_eq!(result, Ok(()));
    for anchor in ["intro", "install", "usage"] {
        let key = with_fragment("https://ex.org/guide", anchor);
        assert_eq!(store.lookup(&key), Some(CacheEntry::new(100, true)));
        assert!(store.url_is_still_valid(&key, 150, 100));
    }
}

#[test]
fn missing_anchor_is_a_dom_failure_but_siblings_are_cached() {
    let mut store = CacheStore::new();
    let url = with_fragment("https://ex.org/guide", "nowhere");
    let result = check_fragment_body(&mut store, &url, "nowhere", 100, GUIDE);
    assert_eq!(result, Err(Reason::Dom));
    let sibling = with_fragment("https://ex.org/guide", "intro");
    assert_eq!(store.lookup(&sibling), Some(CacheEntry::new(100, true)));
    assert_eq!(store.lookup(&url), None);
}

#[test]
fn exhaustive_caching_makes_sibling_checks_cache_hits() {
    // After checking page#install once, checks of page#intro and
    // page#usage within the freshness window are cache hits: no further
    // network activity is planned.
    let mut store = CacheStore::new();
    let url = with_fragment("https://ex.org/guide", "install");
    cache_url_fragment(&mut store, &url, None, 100);
    assert_eq!(check_fragment_body(&mut store, &url, "install", 100, GUIDE), Ok(()));
    for anchor in ["intro", "usage", "install"] {
        let sibling = with_fragment("https://ex.org/guide", anchor);
        assert_eq!(plan_check(Some(&store), &sibling, 150, 100), Plan::CachedOk);
    }
}

#[test]
fn page_level_marker_satisfies_the_unfragmented_key() {
    let mut store = CacheStore::new();
    let url = with_fragment("https://ex.org/guide", "install");
    cache_url_fragment(&mut store, &url, None, 100);
    let page = Url::new("https://ex.org/guide".to_string(), None);
    assert_eq!(store.lookup(&page), Some(CacheEntry::new(100, true)));
    assert_eq!(plan_check(Some(&store), &page, 150, 100), Plan::CachedOk);
}

#[test]
fn uncached_check_reports_presence_and_absence() {
    let url = with_fragment("https://ex.org/guide", "install");
    assert_eq!(check_fragment_body_uncached(&url, "install", GUIDE), Ok(()));
    let missing = with_fragment("https://ex.org/guide", "nowhere");
    assert_eq!(check_fragment_body_uncached(&missing, "nowhere", GUIDE), Err(Reason::Dom));
}

#[test]
fn empty_body_has_no_anchors() {
    let url = with_fragment("https://ex.org/guide", "intro");
    assert_eq!(check_fragment_body_uncached(&url, "intro", b""), Err(Reason::Dom));
}

use touring::cache::{CacheTable, Storage};
use touring::flow::{cached_page_urls, chapter_ids, expiry_after, page_urls_payload};
use touring::keys::pages_cache_key;
use touring::records::{pref_from_stored, stored_download_path};

#[test]
fn read_after_write_until_expiry() {
    let mut c = CacheTable::new();
    c.put_cache("k", "one", 100);
    assert_eq!(c.get_cache("k", 99).as_deref(), Some("one"));
    assert_eq!(c.get_cache("k", 100), None);
    c.put_cache("k", "two", 50);
    assert_eq!(c.get_cache("k", 10).as_deref(), Some("two"));
    assert_eq!(c.get_cache("k", 60), None);
    assert_eq!(c.entries.len(), 1);
    assert_eq!(c.get_cache("missing", 0), None);
}

#[test]
fn clear_by_prefix_counts_rows() {
    let mut c = CacheTable::new();
    c.put_cache("p1|search|Manga|a", "x", 10);
    c.put_cache("p1|search|Manga|b", "y", 10);
    c.put_cache("all|pages|C-1", "z", 10);
    assert_eq!(c.clear_cache_prefix(Some("p1|")), 2);
    assert_eq!(c.get_cache("all|pages|C-1", 0).as_deref(), Some("z"));
    assert_eq!(c.get_cache("p1|search|Manga|a", 0), None);
    assert_eq!(c.clear_cache_prefix(None), 1);
    assert!(c.entries.is_empty());
}

#[test]
fn trait_access_matches() {
    let mut c = CacheTable::new();
    Storage::put_cache(&mut c, "k", "v", 5).unwrap();
    assert_eq!(Storage::get_cache(&c, "k", 4).unwrap().as_deref(), Some("v"));
}

#[test]
fn chapter_image_caching_with_dual_id() {
    let mut cache = CacheTable::new();
    let known = || Some(("C-1".to_string(), "p1".to_string(), "E-1".to_string()));
    // First call, by external id: keyed by the canonical id, fetched by the external one.
    let (cache_id, fetch_id) = chapter_ids("E-1", known());
    assert_eq!(cache_id, "C-1");
    assert_eq!(fetch_id, "E-1");
    let key = pages_cache_key(&cache_id);
    assert_eq!(key, "all|pages|C-1");
    assert!(cached_page_urls(false, cache.get_cache(&key, 1000)).is_none());
    let fetched = vec!["https://i.example.com/1.png".to_string(), "https://i.example.com/2.png".to_string()];
    let payload = page_urls_payload(&fetched);
    assert_eq!(payload, "[\"https://i.example.com/1.png\",\"https://i.example.com/2.png\"]");
    cache.put_cache(&key, &payload, expiry_after(1000, 86400));
    // Second call, by canonical id: the cache answers.
    let (cache_id2, _) = chapter_ids("C-1", known());
    let hit = cached_page_urls(false, cache.get_cache(&pages_cache_key(&cache_id2), 1001));
    assert_eq!(hit.unwrap(), fetched);
    // A refresh ignores the cache.
    assert!(cached_page_urls(true, cache.get_cache(&key, 1001)).is_none());
}

#[test]
fn unknown_chapter_uses_input_for_both_ids() {
    let (a, b) = chapter_ids("X-9", None);
    assert_eq!((a.as_str(), b.as_str()), ("X-9", "X-9"));
}

#[test]
fn bad_payload_is_a_miss() {
    assert!(cached_page_urls(false, Some("{not json".to_string())).is_none());
    assert!(cached_page_urls(false, None).is_none());
}

#[test]
fn expiry_saturates() {
    assert_eq!(expiry_after(1000, 3600), 4600);
    assert_eq!(expiry_after(i64::MAX - 1, 10), i64::MAX);
    assert_eq!(expiry_after(i64::MIN + 1, -10), i64::MIN);
}

#[test]
fn download_path_round_trip() {
    let stored = stored_download_path(Some("/media/x"));
    let pref = pref_from_stored("s1", Some(stored)).unwrap();
    assert_eq!(pref.series_id, "s1");
    assert_eq!(pref.download_path.as_deref(), Some("/media/x"));
    let cleared = pref_from_stored("s1", Some(stored_download_path(Some("")))).unwrap();
    assert_eq!(cleared.download_path, None);
    let unset = pref_from_stored("s1", Some(stored_download_path(None))).unwrap();
    assert_eq!(unset.download_path, None);
    assert!(pref_from_stored("s1", None).is_none());
}

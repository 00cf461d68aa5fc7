use touring::aggregate::{
    finish_chapter_pages, finish_source_search, plan_chapter_pages, plan_source_search, record_streams,
    record_units, PagesPlan, SourceSearch,
};
use touring::allow::filter_media_urls;
use touring::cache::CacheTable;
use touring::errors::CoreError;
use touring::flow::{cached_page_urls, media_stub, page_urls_payload};
use touring::keys::search_key_for_query;
use touring::mapping::chapter_insert_from_unit;
use touring::memstore::MemoryStore;
use touring::model::{Asset, AssetKind, Media, MediaType, Unit, UnitKind};
use touring::records::{ChapterImageInsert, ChapterProgress, EpisodeInsert, StreamInsert};

fn media(id: &str, url: &str) -> Media {
    Media {
        id: id.to_string(),
        mediatype: MediaType::Manga,
        title: format!("Title {}", id),
        description: None,
        url: Some(url.to_string()),
        cover_url: None,
    }
}

fn unit(id: &str, title: &str) -> Unit {
    Unit {
        id: id.to_string(),
        title: title.to_string(),
        number_text: None,
        lang: None,
        group: None,
        url: None,
        published_at: None,
        upload_group: None,
        kind: UnitKind::Chapter,
    }
}

/// One provider's part of a search, with the plugin answering from `answer`.
fn search(
    cache: &mut CacheTable,
    store: &mut MemoryStore,
    calls: &mut Vec<String>,
    raw_query: &str,
    refresh: bool,
    now: i64,
) -> Vec<(String, Media)> {
    let allowed = Some(vec!["*.example.com".to_string()]);
    let key = search_key_for_query("p1", &MediaType::Manga, raw_query);
    let cached: Option<Vec<Media>> = cached_page_urls(false, cache.get_cache(&key, now))
        .map(|ids| ids.iter().map(|id| media(id, "https://www.example.com/x")).collect());
    let list = match plan_source_search("p1", &MediaType::Manga, raw_query, refresh, cached, now, 3600) {
        SourceSearch::Serve { key: served_key, list } => {
            assert_eq!(served_key, key);
            list
        }
        SourceSearch::Fetch { key: fetch_key, query, expires_at } => {
            assert_eq!(fetch_key, key);
            assert_eq!(expires_at, now + 3600);
            calls.push(query.clone());
            let raw = vec![media("m1", "https://www.example.com/m1"), media("m2", "https://elsewhere.org/m2")];
            let list = filter_media_urls(&allowed, &raw);
            let ids: Vec<String> = list.iter().map(|m| m.id.clone()).collect();
            cache.put_cache(&fetch_key, &page_urls_payload(&ids), expires_at);
            list
        }
    };
    finish_source_search(store, &"p1".to_string(), &MediaType::Manga, list, true)
}

#[test]
fn cold_warm_and_refreshed_search() {
    let mut cache = CacheTable::new();
    let mut store = MemoryStore::new();
    let mut calls = Vec::new();

    let cold = search(&mut cache, &mut store, &mut calls, "  The Summer  ", false, 100);
    assert_eq!(calls, vec!["  The Summer  ".to_string()]);
    assert!(cache.get_cache("p1|search|Manga|the summer", 101).is_some());
    assert_eq!(store.series.len(), 2);
    assert_eq!(store.links.len(), 2);
    assert_eq!(cold[0].0, "p1");
    assert_eq!(cold[1].1.url, None);
    let id1 = store.find_series_id_by_source_external("p1", "m1").unwrap();
    assert_eq!(id1.len(), 36);
    assert_ne!(id1, "m1");

    let warm = search(&mut cache, &mut store, &mut calls, "  The Summer  ", false, 200);
    assert_eq!(calls.len(), 1);
    assert_eq!(warm.len(), 2);
    assert_eq!(store.series.len(), 2);

    search(&mut cache, &mut store, &mut calls, "  The Summer  ", true, 300);
    assert_eq!(calls.len(), 2);
    assert_eq!(store.series.len(), 2);
    assert_eq!(store.links.len(), 2);
    assert_eq!(store.find_series_id_by_source_external("p1", "m1").unwrap(), id1);
}

#[test]
fn one_mapping_per_external_id() {
    let mut store = MemoryStore::new();
    let a = store.get_or_create_series_id("p1", "ext", &media("ext", "https://a.example.com"));
    let b = store.get_or_create_series_id("p1", "ext", &media_stub("ext", MediaType::Manga));
    assert_eq!(a, b);
    assert_eq!(store.links.len(), 1);
    assert_eq!(store.series.len(), 1);
    assert_eq!(store.series[0].title, "Title ext");
    let c = store.get_or_create_series_id("p2", "ext", &media("ext", "https://a.example.com"));
    assert_ne!(a, c);
    assert_eq!(store.links.len(), 2);
}

#[test]
fn upserting_a_chapter_twice_keeps_one_row() {
    let mut store = MemoryStore::new();
    let first = chapter_insert_from_unit("C-1".into(), "S".into(), "p1".into(), &unit("e1", "Old"));
    let second = chapter_insert_from_unit("C-1".into(), "S".into(), "p1".into(), &unit("e1", "New"));
    store.upsert_chapter(first);
    store.upsert_chapter(second);
    assert_eq!(store.chapters.len(), 1);
    assert_eq!(store.chapters[0].title.as_deref(), Some("New"));
    let other = chapter_insert_from_unit("C-2".into(), "S".into(), "p1".into(), &unit("e2", "Two"));
    store.upsert_chapter(other);
    assert_eq!(store.chapters.len(), 2);
}

#[test]
fn dual_id_resolution() {
    let mut store = MemoryStore::new();
    store.upsert_chapter(chapter_insert_from_unit("C-1".into(), "S".into(), "p1".into(), &unit("E-1", "")));
    let by_ext = store.find_chapter_fetch_info("E-1").unwrap();
    assert_eq!(by_ext, ("C-1".to_string(), "p1".to_string(), "E-1".to_string()));
    let by_id = store.find_chapter_fetch_info("C-1").unwrap();
    assert_eq!(by_id.0, "C-1");
    assert!(store.find_chapter_fetch_info("nope").is_none());
}

#[test]
fn download_path_set_and_get() {
    let mut store = MemoryStore::new();
    match store.set_series_download_path("missing", Some("/x")) {
        Err(CoreError::NotFound(id)) => assert_eq!(id, "missing"),
        other => panic!("unexpected {:?}", other),
    }
    let sid = store.get_or_create_series_id("p1", "m", &media("m", "https://a.example.com"));
    store.set_series_download_path(&sid, Some("/media/m")).unwrap();
    assert_eq!(store.get_series_download_path(&sid).as_deref(), Some("/media/m"));
    store.set_series_download_path(&sid, Some("")).unwrap();
    assert_eq!(store.get_series_download_path(&sid), None);
    store.set_series_download_path(&sid, Some("/again")).unwrap();
    store.set_series_download_path(&sid, None).unwrap();
    assert_eq!(store.get_series_download_path(&sid), None);
    assert_eq!(store.prefs.len(), 1);
}

#[test]
fn deleting_a_series_cascades() {
    let mut store = MemoryStore::new();
    let s1 = store.get_or_create_series_id("p1", "a", &media("a", "https://a.example.com"));
    let s2 = store.get_or_create_series_id("p1", "b", &media("b", "https://a.example.com"));
    store.upsert_chapter(chapter_insert_from_unit("C-1".into(), s1.clone(), "p1".into(), &unit("c1", "")));
    store.upsert_chapter(chapter_insert_from_unit("C-2".into(), s2.clone(), "p1".into(), &unit("c2", "")));
    store.episodes.push(EpisodeInsert {
        id: "E-1".into(),
        series_id: s1.clone(),
        source_id: "p1".into(),
        external_id: "e1".into(),
        number_text: None,
        title: None,
        lang: None,
        season: None,
        published_at: None,
        upload_group: None,
    });
    let stream = StreamInsert { episode_id: "E-1".into(), url: "https://v/1".into(), quality: None, mime: None };
    store.upsert_streams("E-1", &vec![stream.clone()]);
    store.upsert_streams("E-1", &vec![stream]);
    assert_eq!(store.streams.len(), 1);
    for (cid, idx) in [("C-1", 0), ("C-2", 0)] {
        store.images.push(ChapterImageInsert { chapter_id: cid.into(), idx, url: "u".into(), mime: None, width: None, height: None });
    }
    store.progress.push(ChapterProgress { chapter_id: "C-1".into(), series_id: s1.clone(), page_index: 3, total_pages: Some(10), updated_at: 0 });
    store.set_series_download_path(&s1, Some("/d")).unwrap();

    assert_eq!(store.delete_series(&s1), 1);
    assert_eq!(store.series.len(), 1);
    assert_eq!(store.links.len(), 1);
    assert_eq!(store.chapters.len(), 1);
    assert_eq!(store.chapters[0].id, "C-2");
    assert!(store.episodes.is_empty());
    assert!(store.streams.is_empty());
    assert_eq!(store.images.len(), 1);
    assert_eq!(store.images[0].chapter_id, "C-2");
    assert!(store.progress.is_empty());
    assert!(store.prefs.is_empty());
    assert_eq!(store.delete_series(&s1), 0);
}

#[test]
fn search_without_persisting_leaves_the_store() {
    let mut store = MemoryStore::new();
    let out = finish_source_search(&mut store, &"p1".to_string(), &MediaType::Anime, vec![media("a", "https://x.example.com")], false);
    assert!(store.series.is_empty() && store.links.is_empty());
    assert!(matches!(out[0].1.mediatype, MediaType::Anime));
}

#[test]
fn recording_units_keeps_row_ids() {
    let mut store = MemoryStore::new();
    let sid = store.get_or_create_series_id("p1", "m1", &media("m1", "https://a.example.com"));
    let mut units = vec![unit("c1", "One"), unit("c2", "Two")];
    units.push(Unit { kind: UnitKind::Episode, ..unit("e1", "Ep") });
    let got = record_units(&mut store, "p1", "m1", MediaType::Manga, &units, true);
    assert_eq!(got, sid);
    assert_eq!(store.chapters.len(), 2);
    assert!(store.episodes.is_empty());
    assert_eq!(store.series[0].title, "Title m1");
    let first_id = store.find_chapter_id_by_mapping(&sid, "p1", "c1").unwrap();
    let again = vec![unit("c1", "One, revised")];
    record_units(&mut store, "p1", "m1", MediaType::Manga, &again, true);
    assert_eq!(store.chapters.len(), 2);
    assert_eq!(store.find_chapter_id_by_mapping(&sid, "p1", "c1").unwrap(), first_id);
    assert_eq!(store.series[0].title, "Title m1");

    let eps = record_units(&mut store, "p9", "a1", MediaType::Anime, &units, false);
    assert_eq!(store.episodes.len(), 1);
    assert_eq!(store.find_episode_id_by_mapping(&eps, "p9", "e1").unwrap().len(), 36);
    assert_eq!(store.series.len(), 2);
}

#[test]
fn chapter_pages_flow_with_dual_id() {
    let mut store = MemoryStore::new();
    let mut cache = CacheTable::new();
    store.upsert_chapter(chapter_insert_from_unit("C-1".into(), "S".into(), "p1".into(), &unit("E-1", "")));
    let known = store.find_chapter_fetch_info("E-1");
    let urls = vec!["https://i.example.com/1.png".to_string()];
    let key = match plan_chapter_pages("E-1", known, false, &cache, 1000) {
        PagesPlan::Fetch { key, fetch_id } => {
            assert_eq!(key, "all|pages|C-1");
            assert_eq!(fetch_id, "E-1");
            key
        }
        other => panic!("unexpected {:?}", other),
    };
    finish_chapter_pages(&mut cache, &key, &urls, 1000, 86400);
    assert!(cache.get_cache("all|pages|E-1", 1001).is_none());
    let known = store.find_chapter_fetch_info("C-1");
    match plan_chapter_pages("C-1", known, false, &cache, 1001) {
        PagesPlan::Cached(v) => assert_eq!(v, urls),
        other => panic!("unexpected {:?}", other),
    }
    let known = store.find_chapter_fetch_info("C-1");
    assert!(matches!(plan_chapter_pages("C-1", known, true, &cache, 1001), PagesPlan::Fetch { .. }));
    let known = store.find_chapter_fetch_info("C-1");
    assert!(matches!(plan_chapter_pages("C-1", known, false, &cache, 1000 + 86400), PagesPlan::Fetch { .. }));
}

#[test]
fn streams_are_recorded_for_known_episodes() {
    let mut store = MemoryStore::new();
    let units = vec![Unit { kind: UnitKind::Episode, ..unit("e1", "Ep") }];
    let sid = record_units(&mut store, "p1", "a1", MediaType::Anime, &units, false);
    let eid = store.find_episode_id_by_mapping(&sid, "p1", "e1").unwrap();
    let vids = vec![Asset { url: "https://v/1.m3u8".into(), mime: Some("video/mp4".into()), width: None, height: None, kind: AssetKind::Video }];
    assert_eq!(record_streams(&mut store, "p1", "e1", &vids), Some(eid.clone()));
    assert_eq!(store.streams.len(), 1);
    assert_eq!(store.streams[0].episode_id, eid);
    assert_eq!(store.streams[0].mime.as_deref(), Some("video/mp4"));
    assert_eq!(record_streams(&mut store, "p1", "e1", &vids), Some(eid));
    assert_eq!(store.streams.len(), 1);
    assert_eq!(record_streams(&mut store, "p1", "zz", &vids), None);
}

use touring::flow::{
    force_kind, media_stub, plan_series_identity, tag_with_source, unit_row_id, SeriesPlan,
};
use touring::lang::pick_lang;
use touring::mapping::{
    chapter_id_from, chapter_insert_from_unit, episode_insert_from_unit, kind_str,
    series_id_from, series_insert_from_media, series_source_from, streams_from_assets,
};
use touring::model::{Asset, AssetKind, Media, MediaType, Unit, UnitKind};
use touring::errors::ReplyWait;
use touring::select::{
    chapters_of, episodes_of, flatten_results, page_hit, page_urls_of, unit_hit, video_hit, videos_of,
};

fn media(id: &str, title: &str) -> Media {
    Media {
        id: id.to_string(),
        mediatype: MediaType::Manga,
        title: title.to_string(),
        description: Some("d".to_string()),
        url: None,
        cover_url: Some("https://c.example.com/x.jpg".to_string()),
    }
}

fn unit(id: &str, title: &str, kind: UnitKind) -> Unit {
    Unit {
        id: id.to_string(),
        title: title.to_string(),
        number_text: Some("12".to_string()),
        lang: Some("en".to_string()),
        group: Some("S1".to_string()),
        url: None,
        published_at: Some("2024-01-01".to_string()),
        upload_group: Some("grp".to_string()),
        kind,
    }
}

fn asset(url: &str, kind: AssetKind) -> Asset {
    Asset { url: url.to_string(), mime: Some("image/png".to_string()), width: None, height: None, kind }
}

#[test]
fn derived_ids() {
    assert_eq!(series_id_from("p1", &media("m1", "T")), "series:p1:manga:m1");
    let mut anime = media("a1", "T");
    anime.mediatype = MediaType::Anime;
    assert_eq!(series_id_from("p1", &anime), "series:p1:anime:a1");
    assert_eq!(chapter_id_from("p1", &unit("c9", "", UnitKind::Chapter)), "p1:chapter:c9");
    assert_eq!(chapter_id_from("p1", &unit("e2", "", UnitKind::Episode)), "p1:episode:e2");
    assert_eq!(chapter_id_from("p1", &unit("x", "", UnitKind::Other("z".into()))), "p1:unit:x");
    assert_eq!(kind_str(&MediaType::Other("q".into())), "other");
}

#[test]
fn rows_from_provider_entries() {
    let s = series_insert_from_media("S-1".to_string(), &media("m1", "Title"));
    assert_eq!(s.id, "S-1");
    assert_eq!(s.kind, "manga");
    assert_eq!(s.title, "Title");
    assert_eq!(s.cover_url.as_deref(), Some("https://c.example.com/x.jpg"));
    assert!(s.tags.is_none() && s.alt_titles.is_none() && s.status.is_none());
    let link = series_source_from("S-1".into(), "p1".into(), "m1".into());
    assert_eq!((link.series_id.as_str(), link.source_id.as_str(), link.external_id.as_str()), ("S-1", "p1", "m1"));
    let ch = chapter_insert_from_unit("C-1".into(), "S-1".into(), "p1".into(), &unit("c1", "", UnitKind::Chapter));
    assert_eq!(ch.external_id, "c1");
    assert_eq!(ch.title, None);
    assert_eq!(ch.group.as_deref(), Some("S1"));
    let ep = episode_insert_from_unit("E-1".into(), "S-1".into(), "p1".into(), &unit("e1", "Pilot", UnitKind::Episode));
    assert_eq!(ep.title.as_deref(), Some("Pilot"));
    assert_eq!(ep.season.as_deref(), Some("S1"));
    assert_eq!(ep.upload_group.as_deref(), Some("grp"));
    let streams = streams_from_assets(&"E-1".to_string(), &vec![asset("https://v/1.m3u8", AssetKind::Video)]);
    assert_eq!(streams.len(), 1);
    assert_eq!(streams[0].episode_id, "E-1");
    assert_eq!(streams[0].url, "https://v/1.m3u8");
    assert!(streams[0].quality.is_none());
}

#[test]
fn upserting_the_same_chapter_twice_keeps_its_row_id() {
    let first = unit_row_id(None);
    assert_eq!(first.len(), 36);
    let b: Vec<char> = first.chars().collect();
    assert_eq!((b[8], b[13], b[14], b[18], b[23]), ('-', '-', '4', '-', '-'));
    assert!(first.chars().all(|c| c == '-' || c.is_ascii_digit() || ('a'..='f').contains(&c)));
    let second = unit_row_id(Some(first.clone()));
    assert_eq!(second, first);
    let again = chapter_insert_from_unit(second.clone(), "S".into(), "p".into(), &unit("c1", "New", UnitKind::Chapter));
    assert_eq!(again.id, first);
    assert_eq!(again.title.as_deref(), Some("New"));
}

#[test]
fn identity_reuses_known_ids() {
    match plan_series_identity("p1", "m1", Some("S-1".into()), &media_stub("m1", MediaType::Manga)) {
        SeriesPlan::Reuse { series_id, update } => {
            assert_eq!(series_id, "S-1");
            assert!(update.is_none());
        }
        other => panic!("unexpected {:?}", other),
    }
    match plan_series_identity("p1", "m1", Some("S-1".into()), &media("m1", "Real")) {
        SeriesPlan::Reuse { series_id, update } => {
            assert_eq!(series_id, "S-1");
            assert_eq!(update.unwrap().title, "Real");
        }
        other => panic!("unexpected {:?}", other),
    }
}

#[test]
fn identity_creates_fresh_ids() {
    match plan_series_identity("p1", "m1", None, &media("m1", "Title")) {
        SeriesPlan::Create { series, link } => {
            assert_eq!(series.id.len(), 36);
            assert_ne!(series.id, "m1");
            assert_eq!(link.series_id, series.id);
            assert_eq!(link.source_id, "p1");
            assert_eq!(link.external_id, "m1");
            assert_eq!(series.title, "Title");
        }
        other => panic!("unexpected {:?}", other),
    }
}

#[test]
fn anime_results_are_forced_to_anime() {
    let out = force_kind(&MediaType::Anime, vec![media("a", "A")]);
    assert!(matches!(out[0].mediatype, MediaType::Anime));
    assert_eq!(out[0].id, "a");
    let kept = force_kind(&MediaType::Manga, vec![media("b", "B")]);
    assert!(matches!(kept[0].mediatype, MediaType::Manga));
    let tagged = tag_with_source(&"p1".to_string(), &out);
    assert_eq!(tagged[0].0, "p1");
    assert_eq!(tagged[0].1.id, "a");
}

#[test]
fn first_hit_filters() {
    let units = vec![
        unit("c1", "", UnitKind::Chapter),
        unit("e1", "", UnitKind::Episode),
        unit("s1", "", UnitKind::Section),
        unit("c2", "", UnitKind::Chapter),
    ];
    let ids: Vec<String> = chapters_of(&units).into_iter().map(|u| u.id).collect();
    assert_eq!(ids, vec!["c1", "c2"]);
    assert_eq!(episodes_of(&units).len(), 1);
    let assets = vec![
        asset("p1", AssetKind::Page),
        asset("v1", AssetKind::Video),
        asset("i1", AssetKind::Image),
        asset("o1", AssetKind::Other("x".into())),
    ];
    assert_eq!(page_urls_of(&assets), vec!["p1".to_string(), "i1".to_string()]);
    let vids = videos_of(&assets);
    assert_eq!(vids.len(), 1);
    assert_eq!(vids[0].url, "v1");
    assert!(chapters_of(&Vec::new()).is_empty());
}

#[test]
fn fan_out_flattening() {
    let out = flatten_results(vec![
        ("a".to_string(), vec![media("1", "x"), media("2", "y")]),
        ("b".to_string(), vec![]),
        ("c".to_string(), vec![media("3", "z")]),
    ]);
    let got: Vec<(String, String)> = out.into_iter().map(|(s, m)| (s, m.id)).collect();
    assert_eq!(
        got,
        vec![("a".into(), "1".into()), ("a".into(), "2".into()), ("c".into(), "3".into())]
    );
}

#[test]
fn language_choice() {
    let map = vec![
        ("ja".to_string(), "タイトル".to_string()),
        ("en".to_string(), "".to_string()),
        ("fr".to_string(), "Titre".to_string()),
    ];
    let prefs = vec!["en".to_string(), "fr".to_string()];
    assert_eq!(pick_lang(&map, &prefs).as_deref(), Some("Titre"));
    assert_eq!(pick_lang(&map, &vec!["de".to_string()]).as_deref(), Some("タイトル"));
    let empty = vec![("en".to_string(), "".to_string())];
    assert_eq!(pick_lang(&empty, &prefs), None);
}

#[test]
fn media_cache_form_round_trips() {
    let mut m = media("m1", "T");
    m.mediatype = MediaType::Other("novel".into());
    let c = touring::stored::media_to_cache(&m);
    assert_eq!(c.mediatype, "other:novel");
    let back = touring::stored::media_from_cache(c);
    assert!(matches!(&back.mediatype, MediaType::Other(s) if s == "novel"));
    assert_eq!(back.id, "m1");
    assert_eq!(back.cover_url, m.cover_url);
    let manga = touring::stored::media_to_cache(&media("m2", "U"));
    assert_eq!(manga.mediatype, "manga");
    assert!(matches!(touring::stored::media_from_cache(manga).mediatype, MediaType::Manga));
    let odd = touring::stored::MediaCache {
        id: "x".into(),
        mediatype: "comic".into(),
        title: "".into(),
        description: None,
        url: None,
        cover_url: None,
    };
    assert!(matches!(touring::stored::media_from_cache(odd).mediatype, MediaType::Other(s) if s == "comic"));
}

#[test]
fn error_placeholders_are_dropped() {
    let list = vec![media("error", "boom"), media("m1", "HTTP Error: 503"), media("m2", "HTTP"), media("m3", "Fine")];
    let out = touring::select::drop_error_entries(&list);
    let ids: Vec<&str> = out.iter().map(|m| m.id.as_str()).collect();
    assert_eq!(ids, vec!["m2", "m3"]);
}

#[test]
fn refresh_takes_metadata_from_own_source() {
    let results = vec![
        ("p2".to_string(), media("m1", "Wrong source")),
        ("p1".to_string(), media("m9", "Wrong id")),
        ("p1".to_string(), media("m1", "Fresh")),
    ];
    let upd = touring::select::refresh_update_for(&results, "p1", "m1").unwrap();
    assert_eq!(upd.title.as_deref(), Some("Fresh"));
    assert_eq!(upd.description, Some(Some("d".to_string())));
    assert!(upd.status.is_none());
    assert!(touring::select::refresh_update_for(&results, "p3", "m1").is_none());
}

#[test]
fn fan_out_swallows_failures() {
    let replies = vec![
        ("a".to_string(), ReplyWait::Replied(Ok(vec![media("1", "x")]))),
        ("b".to_string(), ReplyWait::Elapsed),
        ("c".to_string(), ReplyWait::Replied(Err("trap".to_string()))),
        ("d".to_string(), ReplyWait::Dropped),
        ("e".to_string(), ReplyWait::Replied(Ok(vec![media("2", "y"), media("3", "z")]))),
    ];
    let out = touring::select::gather_search_results(replies);
    let got: Vec<(String, String)> = out.into_iter().map(|(s, m)| (s, m.id)).collect();
    assert_eq!(got, vec![("a".into(), "1".into()), ("e".into(), "2".into()), ("e".into(), "3".into())]);
    assert!(touring::select::gather_search_results(vec![("x".to_string(), ReplyWait::Elapsed)]).is_empty());
}

#[test]
fn first_hit_answers() {
    let mixed = vec![unit("e1", "", UnitKind::Episode), unit("c1", "", UnitKind::Chapter)];
    let (name, got) = unit_hit("p1".into(), ReplyWait::Replied(Ok(mixed.clone())), true).unwrap();
    assert_eq!(name, "p1");
    assert_eq!(got.len(), 1);
    assert_eq!(got[0].id, "c1");
    let only_eps = vec![unit("e1", "", UnitKind::Episode)];
    assert!(unit_hit("p1".into(), ReplyWait::Replied(Ok(only_eps)), true).is_none());
    assert!(unit_hit("p1".into(), ReplyWait::Elapsed, false).is_none());
    let assets = vec![asset("img", AssetKind::Image), asset("vid", AssetKind::Video)];
    assert_eq!(page_hit("p2".into(), ReplyWait::Replied(Ok(assets.clone()))).unwrap().1, vec!["img".to_string()]);
    assert_eq!(video_hit("p2".into(), ReplyWait::Replied(Ok(assets))).unwrap().1[0].url, "vid");
    assert!(page_hit("p2".into(), ReplyWait::Dropped).is_none());
    assert!(video_hit("p2".into(), ReplyWait::Replied(Ok(vec![]))).is_none());
}

#[test]
fn timed_out_provider_adds_nothing() {
    let replies = vec![
        ("p".to_string(), ReplyWait::Elapsed),
        ("q".to_string(), ReplyWait::Replied(Ok(vec![media("1", "x")]))),
    ];
    let out = touring::select::gather_search_results(replies);
    assert!(out.iter().all(|(s, _)| s != "p"));
    assert_eq!(out.len(), 1);
}


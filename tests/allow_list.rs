use touring::allow::{
    filter_assets, filter_media_urls, filter_unit_urls, host_matches, is_muted, url_allowed,
    url_allowed_parts,
};
use touring::model::{Asset, AssetKind, Media, MediaType, Unit, UnitKind};

fn hosts(list: &[&str]) -> Option<Vec<String>> {
    Some(list.iter().map(|s| s.to_string()).collect())
}

fn media(id: &str, url: Option<&str>, cover: Option<&str>) -> Media {
    Media {
        id: id.to_string(),
        mediatype: MediaType::Manga,
        title: format!("title {}", id),
        description: None,
        url: url.map(|s| s.to_string()),
        cover_url: cover.map(|s| s.to_string()),
    }
}

fn asset(url: &str) -> Asset {
    Asset { url: url.to_string(), mime: None, width: None, height: None, kind: AssetKind::Page }
}

#[test]
fn wildcard_matches_apex_and_subdomains() {
    assert!(host_matches("example.com", "*.example.com"));
    assert!(host_matches("a.b.example.com", "*.example.com"));
    assert!(!host_matches("badexample.com", "*.example.com"));
    assert!(host_matches("cdn.net", "cdn.net"));
    assert!(!host_matches("x.cdn.net", "cdn.net"));
}

#[test]
fn url_checks_scheme_and_host() {
    let h = hosts(&["*.example.com"]);
    assert!(url_allowed(&h, "https://img.example.com/a.png"));
    assert!(url_allowed(&h, "http://EXAMPLE.com/"));
    assert!(!url_allowed(&h, "ftp://example.com/a"));
    assert!(!url_allowed(&h, "https://other.org/a"));
    assert!(!url_allowed(&h, "not a url"));
}

#[test]
fn parsed_parts_decide() {
    let h = hosts(&["*.example.com"]);
    let parts = Some(("https".to_string(), Some("WWW.EXAMPLE.COM".to_string())));
    assert!(url_allowed_parts(&h, &parts));
    let no_host = Some(("https".to_string(), None));
    assert!(!url_allowed_parts(&h, &no_host));
    let mailto = Some(("mailto".to_string(), Some("example.com".to_string())));
    assert!(!url_allowed_parts(&h, &mailto));
    assert!(!url_allowed_parts(&h, &None));
    assert!(url_allowed_parts(&None, &None));
}

#[test]
fn empty_list_mutes_everything() {
    let h: Option<Vec<String>> = Some(Vec::new());
    assert!(is_muted(&h));
    assert!(!url_allowed(&h, "https://example.com/"));
    let out = filter_assets(&h, &vec![asset("https://example.com/1.png")]);
    assert!(out.is_empty());
}

#[test]
fn unset_list_filters_nothing() {
    assert!(!is_muted(&None));
    assert!(url_allowed(&None, "ftp://anything/"));
    let list = vec![media("m", Some("https://x.org/"), Some("gopher://y"))];
    let out = filter_media_urls(&None, &list);
    assert_eq!(out[0].url.as_deref(), Some("https://x.org/"));
    assert_eq!(out[0].cover_url.as_deref(), Some("gopher://y"));
}

#[test]
fn disallowed_media_urls_are_cleared() {
    let h = hosts(&["*.example.com"]);
    let list = vec![
        media("a", Some("https://www.example.com/a"), Some("https://cdn.other.net/c.jpg")),
        media("b", Some("https://evil.org/b"), None),
    ];
    let out = filter_media_urls(&h, &list);
    assert_eq!(out.len(), 2);
    assert_eq!(out[0].id, "a");
    assert_eq!(out[0].title, "title a");
    assert_eq!(out[0].url.as_deref(), Some("https://www.example.com/a"));
    assert_eq!(out[0].cover_url, None);
    assert_eq!(out[1].url, None);
}

#[test]
fn disallowed_unit_urls_are_cleared() {
    let h = hosts(&["example.com"]);
    let u = Unit {
        id: "u1".to_string(),
        title: "One".to_string(),
        number_text: Some("1".to_string()),
        lang: None,
        group: None,
        url: Some("https://sub.example.com/u1".to_string()),
        published_at: None,
        upload_group: None,
        kind: UnitKind::Chapter,
    };
    let out = filter_unit_urls(&h, &vec![u]);
    assert_eq!(out[0].url, None);
    assert_eq!(out[0].number_text.as_deref(), Some("1"));
}

#[test]
fn disallowed_assets_are_dropped() {
    let h = hosts(&["*.example.com"]);
    let list = vec![
        asset("https://i.example.com/1.png"),
        asset("https://i.other.com/2.png"),
        asset("https://example.com/3.png"),
    ];
    let out = filter_assets(&h, &list);
    let urls: Vec<&str> = out.iter().map(|a| a.url.as_str()).collect();
    assert_eq!(urls, vec!["https://i.example.com/1.png", "https://example.com/3.png"]);
}

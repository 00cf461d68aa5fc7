use touring::keys::{pages_cache_key, search_cache_key, search_key_for_query};
use touring::model::MediaType;
use touring::text::{ends_with, norm_query, str_eq, to_ascii_lower, trim};

#[test]
fn normalizes_spec_example() {
    assert_eq!(norm_query("  The Summer  "), "the summer");
}

#[test]
fn normalization_collapses_unicode_white_space() {
    assert_eq!(norm_query("\tOne\n\n  Piece\u{3000}GOLD\u{a0} "), "one piece gold");
    assert_eq!(norm_query(""), "");
    assert_eq!(norm_query(" \t\n "), "");
    assert_eq!(norm_query("ÄBC  déF"), "Äbc déf");
}

#[test]
fn cold_search_key() {
    let key = search_key_for_query("p1", &MediaType::Manga, "  The Summer  ");
    assert_eq!(key, "p1|search|Manga|the summer");
}

#[test]
fn equal_normal_forms_share_a_key() {
    let a = search_key_for_query("p1", &MediaType::Anime, "The   Summer");
    let b = search_key_for_query("p1", &MediaType::Anime, "\tthe summer\n");
    assert_eq!(a, b);
    assert_eq!(a, "p1|search|Anime|the summer");
}

#[test]
fn other_kind_label_in_key() {
    let key = search_cache_key("src", &MediaType::Other("novel".to_string()), "x");
    assert_eq!(key, "src|search|Other(\"novel\")|x");
}

#[test]
fn pages_key_uses_the_given_id() {
    assert_eq!(pages_cache_key("C-1"), "all|pages|C-1");
}

#[test]
fn string_helpers() {
    assert!(str_eq("abc", "abc"));
    assert!(!str_eq("abc", "abd"));
    assert!(ends_with("a.b.example.com", ".example.com"));
    assert!(!ends_with("com", ".example.com"));
    assert_eq!(to_ascii_lower("WwW.Example.COM"), "www.example.com");
    assert_eq!(trim("  x y \n"), "x y");
}

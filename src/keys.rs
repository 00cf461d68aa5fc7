use vstd::prelude::*;

use crate::model::MediaType;
use crate::text::{norm_query, normalize_spec};

verus! {

/// The label of a media kind inside a search cache key; an `Other` kind's
/// name is written between quotes as it is, without escapes.
pub open spec fn kind_label_spec(kind: MediaType) -> Seq<char> {
    match kind {
        MediaType::Manga => "Manga"@,
        MediaType::Anime => "Anime"@,
        MediaType::Other(s) => "Other(\""@ + s@ + "\")"@,
    }
}

/// `<source>|search|<kind>|<normalized query>`.
pub open spec fn search_key_spec(source: Seq<char>, kind: MediaType, normalized: Seq<char>) -> Seq<
    char,
> {
    source + "|search|"@ + kind_label_spec(kind) + "|"@ + normalized
}

/// `all|pages|<chapter id>`.
pub open spec fn pages_key_spec(chapter_id: Seq<char>) -> Seq<char> {
    "all|pages|"@ + chapter_id
}

pub fn kind_label(kind: &MediaType) -> (r: String)
    ensures
        r@ == kind_label_spec(*kind),
{
    match kind {
        MediaType::Manga => String::from_str("Manga"),
        MediaType::Anime => String::from_str("Anime"),
        MediaType::Other(s) => {
            let mut r = String::from_str("Other(\"");
            r.append(s.as_str());
            r.append("\")");
            r
        },
    }
}

/// The cache key of one provider's search results for an already normalized query.
pub fn search_cache_key(source: &str, kind: &MediaType, normalized: &str) -> (r: String)
    ensures
        r@ == search_key_spec(source@, *kind, normalized@),
{
    let mut r = String::from_str(source);
    r.append("|search|");
    let label = kind_label(kind);
    r.append(label.as_str());
    r.append("|");
    r.append(normalized);
    r
}

/// The cache key of one provider's search results for a query as the user typed it.
pub fn search_key_for_query(source: &str, kind: &MediaType, raw_query: &str) -> (r: String)
    ensures
        r@ == search_key_spec(source@, *kind, normalize_spec(raw_query@)),
{
    let norm = norm_query(raw_query);
    search_cache_key(source, kind, norm.as_str())
}

/// The cache key of a chapter's page list, keyed by the chapter's canonical id.
pub fn pages_cache_key(chapter_id: &str) -> (r: String)
    ensures
        r@ == pages_key_spec(chapter_id@),
{
    let mut r = String::from_str("all|pages|");
    r.append(chapter_id);
    r
}

/// Two queries with the same normalized form share one search cache key, for
/// every provider and kind.
pub proof fn lemma_search_key_stable(
    source: Seq<char>,
    kind: MediaType,
    q1: Seq<char>,
    q2: Seq<char>,
)
    requires
        normalize_spec(q1) == normalize_spec(q2),
    ensures
        search_key_spec(source, kind, normalize_spec(q1)) == search_key_spec(
            source,
            kind,
            normalize_spec(q2),
        ),
{
}

} // verus!

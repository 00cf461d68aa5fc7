use vstd::prelude::*;

use crate::model::{copy_opt, Media, MediaType};
use crate::text::str_eq;

verus! {

/// A media entry as a search result is cached: its kind as text.
#[derive(Clone, Debug)]
pub struct MediaCache {
    pub id: String,
    pub mediatype: String,
    pub title: String,
    pub description: Option<String>,
    pub url: Option<String>,
    pub cover_url: Option<String>,
}

/// A cached search result together with the provider that returned it.
#[derive(Clone, Debug)]
pub struct SearchEntry {
    pub source_id: String,
    pub media: MediaCache,
}

/// The text of a media kind in the cache: `manga`, `anime` or `other:<name>`.
pub open spec fn kind_text_spec(mt: MediaType) -> Seq<char> {
    match mt {
        MediaType::Manga => "manga"@,
        MediaType::Anime => "anime"@,
        MediaType::Other(s) => "other:"@ + s@,
    }
}

/// The name an `Other` kind reads back from cached text: what follows the
/// `other:` tag, or the whole text when it has no tag.
pub open spec fn other_name(t: Seq<char>) -> Seq<char> {
    if t.len() >= "other:"@.len() && t.subrange(0, "other:"@.len() as int) == "other:"@ {
        t.subrange("other:"@.len() as int, t.len() as int)
    } else {
        t
    }
}

/// The media kind read back from cached text: `manga` and `anime` name their
/// kinds, and any other text is an `Other` kind.
pub open spec fn kind_matches(mt: MediaType, t: Seq<char>) -> bool {
    match mt {
        MediaType::Manga => t == "manga"@,
        MediaType::Anime => t == "anime"@,
        MediaType::Other(s) => t != "manga"@ && t != "anime"@ && s@ == other_name(t),
    }
}

/// The cached form of a media entry.
pub fn media_to_cache(m: &Media) -> (r: MediaCache)
    ensures
        r.id == m.id,
        r.mediatype@ == kind_text_spec(m.mediatype),
        r.title == m.title,
        r.description == m.description,
        r.url == m.url,
        r.cover_url == m.cover_url,
{
    let mediatype = match &m.mediatype {
        MediaType::Manga => String::from_str("manga"),
        MediaType::Anime => String::from_str("anime"),
        MediaType::Other(s) => {
            let mut t = String::from_str("other:");
            t.append(s.as_str());
            t
        },
    };
    MediaCache {
        id: m.id.clone(),
        mediatype,
        title: m.title.clone(),
        description: copy_opt(&m.description),
        url: copy_opt(&m.url),
        cover_url: copy_opt(&m.cover_url),
    }
}

/// The media entry a cached form stands for.
pub fn media_from_cache(mc: MediaCache) -> (r: Media)
    ensures
        r.id == mc.id,
        kind_matches(r.mediatype, mc.mediatype@),
        r.title == mc.title,
        r.description == mc.description,
        r.url == mc.url,
        r.cover_url == mc.cover_url,
{
    let t = mc.mediatype.as_str();
    let n = t.unicode_len();
    let tag = "other:";
    let tag_len = tag.unicode_len();
    let mediatype = if str_eq(t, "manga") {
        MediaType::Manga
    } else if str_eq(t, "anime") {
        MediaType::Anime
    } else if n >= tag_len && str_eq(t.substring_char(0, tag_len), tag) {
        MediaType::Other(String::from_str(t.substring_char(tag_len, n)))
    } else {
        MediaType::Other(String::from_str(t))
    };
    Media {
        id: mc.id,
        mediatype,
        title: mc.title,
        description: mc.description,
        url: mc.url,
        cover_url: mc.cover_url,
    }
}

/// Caching a media entry and reading it back gives the same entry: every
/// field, and the kind (an `Other` kind with its name).
pub proof fn lemma_media_cache_round_trip(m: Media)
    ensures
        kind_matches(m.mediatype, kind_text_spec(m.mediatype)),
{
    reveal_strlit("manga");
    reveal_strlit("anime");
    reveal_strlit("other:");
    match m.mediatype {
        MediaType::Other(s) => {
            let t = "other:"@ + s@;
            assert(t.subrange(0, 6) =~= "other:"@);
            assert(t.subrange(6, t.len() as int) =~= s@);
            if t == "manga"@ {
                assert(t[0] == 'o');
            }
            if t == "anime"@ {
                assert(t[0] == 'o');
            }
        },
        _ => {},
    }
}

} // verus!

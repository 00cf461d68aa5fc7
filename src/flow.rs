use vstd::prelude::*;

use crate::mapping::series_insert_from_media;
use crate::model::{Media, MediaType};
use crate::records::{SeriesInsert, SeriesSourceInsert};

verus! {

/// Seconds a search result stays cached unless configured otherwise.
pub const DEFAULT_SEARCH_TTL_SECS: i64 = 3600;

/// Seconds a chapter's page list stays cached unless configured otherwise.
pub const DEFAULT_PAGES_TTL_SECS: i64 = 86400;

/// What `serde_json::to_string` writes for a list of strings.
pub uninterp spec fn json_of_strings(items: Seq<Seq<char>>) -> Seq<char>;

/// What `serde_json::from_str` reads as a list of strings: `None` when the
/// text is not a JSON array of strings.
pub uninterp spec fn strings_of_json(text: Seq<char>) -> Option<Seq<Seq<char>>>;

/// The view of a list of strings.
pub open spec fn strings_view(v: Seq<String>) -> Seq<Seq<char>> {
    v.map_values(|s: String| s@)
}

/// Relies on `serde_json::to_string` for `Vec<String>`: the JSON text of the
/// list.  It fails only for a failing `Serialize` impl or a map with
/// non-string keys, neither of which a list of strings has.
#[verifier::external_body]
fn encode_strings(items: &Vec<String>) -> (r: Option<String>)
    ensures
        r is Some,
        r matches Some(t) ==> t@ == json_of_strings(strings_view(items@)),
{
    serde_json::to_string(items).ok()
}

/// Relies on `serde_json::from_str` for `Vec<String>`: the list a JSON text
/// holds.  Text that `serde_json::to_string` wrote for a list of strings reads
/// back as that list: the escapes the writer emits are the ones the parser
/// undoes.
#[verifier::external_body]
fn decode_strings(text: &str) -> (r: Option<Vec<String>>)
    ensures
        match r {
            Some(v) => strings_of_json(text@) == Some(strings_view(v@)),
            None => strings_of_json(text@).is_none(),
        },
        forall|x: Seq<Seq<char>>|
            text@ == #[trigger] json_of_strings(x) ==> (r is Some && strings_view(r->Some_0@) == x),
{
    serde_json::from_str::<Vec<String>>(text).ok()
}

/// The text of a random (version 4) UUID: 36 characters, hyphens at
/// positions 8, 13, 18 and 23, lowercase hexadecimal digits elsewhere, and
/// the version digit `4` at position 14.
pub open spec fn uuid_v4_text(s: Seq<char>) -> bool {
    &&& s.len() == 36
    &&& forall|i: int|
        0 <= i < 36 ==> if i == 8 || i == 13 || i == 18 || i == 23 {
            #[trigger] s[i] == '-'
        } else {
            ('0' <= s[i] && s[i] <= '9') || ('a' <= s[i] && s[i] <= 'f')
        }
    &&& s[14] == '4'
}

/// Relies on `uuid::Uuid::new_v4` (which sets the version bits to 4) and its
/// `Display` (the lowercase hyphenated form): a fresh random id.
#[verifier::external_body]
fn fresh_uuid() -> (r: String)
    ensures
        uuid_v4_text(r@),
{
    uuid::Uuid::new_v4().to_string()
}

/// `now + ttl`, held within the range of `i64`.
pub open spec fn expiry_spec(now: i64, ttl: i64) -> int {
    if now + ttl > i64::MAX {
        i64::MAX as int
    } else if now + ttl < i64::MIN {
        i64::MIN as int
    } else {
        now + ttl
    }
}

/// The time a cache entry written at `now` stops being served.
pub fn expiry_after(now: i64, ttl: i64) -> (r: i64)
    ensures
        r == expiry_spec(now, ttl),
{
    let sum: i128 = now as i128 + ttl as i128;
    if sum > i64::MAX as i128 {
        i64::MAX
    } else if sum < i64::MIN as i128 {
        i64::MIN
    } else {
        sum as i64
    }
}

/// The page list to serve from a cached payload: nothing when a refresh is
/// asked for, when nothing is cached, or when the payload is not a JSON list
/// of strings.
pub fn cached_page_urls(refresh: bool, payload: Option<String>) -> (r: Option<Vec<String>>)
    ensures
        refresh ==> r.is_none(),
        !refresh ==> match payload {
            None => r.is_none(),
            Some(p) => match r {
                Some(v) => strings_of_json(p@) == Some(strings_view(v@)),
                None => strings_of_json(p@).is_none(),
            },
        },
        forall|x: Seq<Seq<char>>|
            !refresh && payload is Some && payload->Some_0@ == #[trigger] json_of_strings(x) ==> (
            r is Some && strings_view(r->Some_0@) == x),
{
    if refresh {
        return None;
    }
    match payload {
        None => None,
        Some(p) => decode_strings(p.as_str()),
    }
}

/// The payload cached for a page list: its JSON text.
pub fn page_urls_payload(urls: &Vec<String>) -> (r: String)
    ensures
        r@ == json_of_strings(strings_view(urls@)),
{
    encode_strings(urls).unwrap()
}

/// The ids a chapter request uses: the chapter's canonical id keys the cache
/// and its external id goes to the plugin; an id the store does not know is
/// used for both.  `known` is the stored `(canonical id, source, external id)`.
pub fn chapter_ids(requested: &str, known: Option<(String, String, String)>) -> (r: (
    String,
    String,
))
    ensures
        match known {
            Some((canonical, _source, external)) => r.0 == canonical && r.1 == external,
            None => r.0@ == requested@ && r.1@ == requested@,
        },
{
    match known {
        Some((canonical, _source, external)) => (canonical, external),
        None => (String::from_str(requested), String::from_str(requested)),
    }
}

/// A search result as a search of the given kind returns it: anime
/// searches return anime whatever the provider says.
pub open spec fn forced_spec(kind: MediaType, m: Media) -> Media {
    if kind is Anime {
        Media { mediatype: MediaType::Anime, ..m }
    } else {
        m
    }
}

/// Results of an anime search are anime whatever the provider says.
pub fn force_kind(kind: &MediaType, list: Vec<Media>) -> (r: Vec<Media>)
    ensures
        r@.len() == list@.len(),
        forall|i: int| 0 <= i < r@.len() ==> (#[trigger] r@[i]) == forced_spec(*kind, list@[i]),
{
    let mut out: Vec<Media> = Vec::new();
    let anime = match kind {
        MediaType::Anime => true,
        _ => false,
    };
    let mut i: usize = 0;
    while i < list.len()
        invariant
            i <= list@.len(),
            out@.len() == i,
            anime == (*kind is Anime),
            forall|k: int| 0 <= k < i ==> (#[trigger] out@[k]) == forced_spec(*kind, list@[k]),
        decreases list@.len() - i,
    {
        let m = list[i].copied();
        if anime {
            out.push(Media { mediatype: MediaType::Anime, ..m });
        } else {
            out.push(m);
        }
        i = i + 1;
    }
    out
}

/// Each result paired with the provider that returned it, in order.
pub fn tag_with_source(source: &String, list: &Vec<Media>) -> (r: Vec<(String, Media)>)
    ensures
        r@.len() == list@.len(),
        forall|i: int| 0 <= i < r@.len() ==> (#[trigger] r@[i]) == (*source, list@[i]),
{
    let mut out: Vec<(String, Media)> = Vec::new();
    let mut i: usize = 0;
    while i < list.len()
        invariant
            i <= list@.len(),
            out@.len() == i,
            forall|k: int| 0 <= k < i ==> (#[trigger] out@[k]) == (*source, list@[k]),
        decreases list@.len() - i,
    {
        out.push((source.clone(), list[i].copied()));
        i = i + 1;
    }
    out
}

/// What to write for a provider's external id.
#[derive(Debug)]
pub enum SeriesPlan {
    /// The id is mapped already: keep the series, and update its row only
    /// when the incoming entry carries a title.
    Reuse { series_id: String, update: Option<SeriesInsert> },
    /// The id is new: create the series under a fresh id and map it.
    Create { series: SeriesInsert, link: SeriesSourceInsert },
}

/// The series row written for a media entry under a canonical id.
pub open spec fn series_row_ok(row: SeriesInsert, id: String, media: Media) -> bool {
    row.id == id && row.title == media.title && row.description == media.description
        && row.cover_url == media.cover_url && row.alt_titles.is_none() && row.tags.is_none()
        && row.status.is_none()
}

/// The canonical series id for a provider's external id.  An existing mapping
/// is always kept, and its metadata is only overwritten by an entry with a
/// non-empty title, so that stubs never clobber good data; a new external id
/// gets a fresh id, a series row and its mapping.
pub fn plan_series_identity(
    source_id: &str,
    external_id: &str,
    existing: Option<String>,
    media: &Media,
) -> (r: SeriesPlan)
    ensures
        match existing {
            Some(id) => match r {
                SeriesPlan::Reuse { series_id, update } => series_id == id && (if media.title@.len()
                    == 0 {
                    update.is_none()
                } else {
                    update.is_some() && series_row_ok(update.unwrap(), id, *media)
                }),
                SeriesPlan::Create { .. } => false,
            },
            None => match r {
                SeriesPlan::Create { series, link } => series_row_ok(series, series.id, *media)
                    && uuid_v4_text(series.id@) && link.series_id == series.id && link.source_id@
                    == source_id@ && link.external_id@ == external_id@,
                SeriesPlan::Reuse { .. } => false,
            },
        },
{
    match existing {
        Some(id) => {
            if media.title.unicode_len() == 0 {
                SeriesPlan::Reuse { series_id: id, update: None }
            } else {
                let row = series_insert_from_media(id.clone(), media);
                SeriesPlan::Reuse { series_id: id, update: Some(row) }
            }
        },
        None => {
            let id = fresh_uuid();
            let series = series_insert_from_media(id.clone(), media);
            let link = SeriesSourceInsert {
                series_id: id,
                source_id: String::from_str(source_id),
                external_id: String::from_str(external_id),
            };
            SeriesPlan::Create { series, link }
        },
    }
}

/// The id of a unit row: the stored one when the unit is known, else a fresh one.
pub fn unit_row_id(existing: Option<String>) -> (r: String)
    ensures
        match existing {
            Some(id) => r == id,
            None => uuid_v4_text(r@),
        },
{
    match existing {
        Some(id) => id,
        None => fresh_uuid(),
    }
}

/// A media entry that stands in for a series when only its external id is
/// known: its empty title keeps the series' stored metadata as it is.
pub fn media_stub(external_id: &str, kind: MediaType) -> (r: Media)
    ensures
        r.id@ == external_id@,
        r.mediatype == kind,
        r.title@.len() == 0,
        r.description.is_none(),
        r.url.is_none(),
        r.cover_url.is_none(),
{
    Media {
        id: String::from_str(external_id),
        mediatype: kind,
        title: String::new(),
        description: None,
        url: None,
        cover_url: None,
    }
}

} // verus!

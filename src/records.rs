use vstd::prelude::*;

use crate::model::copy_opt;

verus! {

/// A provider source row.
#[derive(Clone, Debug)]
pub struct SourceInsert {
    pub id: String,
    pub version: String,
}

/// A canonical series row; `alt_titles` and `tags` hold JSON arrays as text.
#[derive(Clone, Debug)]
pub struct SeriesInsert {
    pub id: String,
    pub kind: String,
    pub title: String,
    pub alt_titles: Option<String>,
    pub description: Option<String>,
    pub cover_url: Option<String>,
    pub tags: Option<String>,
    pub status: Option<String>,
}

/// The mapping of a provider's external id onto a canonical series.
#[derive(Clone, Debug)]
pub struct SeriesSourceInsert {
    pub series_id: String,
    pub source_id: String,
    pub external_id: String,
}

/// A chapter row.  Its numeric chapter number is bound by the store beside
/// `number_text`.
#[derive(Clone, Debug)]
pub struct ChapterInsert {
    pub id: String,
    pub series_id: String,
    pub source_id: String,
    pub external_id: String,
    pub number_text: Option<String>,
    pub title: Option<String>,
    pub lang: Option<String>,
    pub group: Option<String>,
    pub published_at: Option<String>,
    pub upload_group: Option<String>,
}

/// One page image of a chapter, at position `idx`.
#[derive(Clone, Debug)]
pub struct ChapterImageInsert {
    pub chapter_id: String,
    pub idx: i64,
    pub url: String,
    pub mime: Option<String>,
    pub width: Option<i64>,
    pub height: Option<i64>,
}

/// An episode row.  Its numeric episode number is bound by the store beside
/// `number_text`.
#[derive(Clone, Debug)]
pub struct EpisodeInsert {
    pub id: String,
    pub series_id: String,
    pub source_id: String,
    pub external_id: String,
    pub number_text: Option<String>,
    pub title: Option<String>,
    pub lang: Option<String>,
    pub season: Option<String>,
    pub published_at: Option<String>,
    pub upload_group: Option<String>,
}

/// A playable stream of an episode.
#[derive(Clone, Debug)]
pub struct StreamInsert {
    pub episode_id: String,
    pub url: String,
    pub quality: Option<String>,
    pub mime: Option<String>,
}

/// Per-series preferences.
#[derive(Clone, Debug)]
pub struct SeriesPref {
    pub series_id: String,
    pub download_path: Option<String>,
}

/// Summary of a series in the local library.
#[derive(Clone, Debug)]
pub struct SeriesInfo {
    pub id: String,
    pub kind: String,
    pub title: String,
    pub description: Option<String>,
    pub cover_url: Option<String>,
    pub status: Option<String>,
    pub download_path: Option<String>,
    pub chapters_count: usize,
    pub episodes_count: usize,
}

/// Fields of a series to change; `None` leaves a field as it is, and
/// `Some(None)` clears an optional one.
#[derive(Clone, Debug, Default)]
pub struct SeriesMetadataUpdate {
    pub title: Option<String>,
    pub description: Option<Option<String>>,
    pub cover_url: Option<Option<String>>,
    pub status: Option<Option<String>>,
}

/// One provider mapping of a series.
#[derive(Clone, Debug)]
pub struct SeriesSource {
    pub source_id: String,
    pub external_id: String,
}

/// Reading progress in one chapter.
#[derive(Clone, Debug)]
pub struct ChapterProgress {
    pub chapter_id: String,
    pub series_id: String,
    pub page_index: i64,
    pub total_pages: Option<i64>,
    pub updated_at: i64,
}

/// Progress of a batch download.
#[derive(Clone, Debug)]
pub struct DownloadProgress {
    pub current: usize,
    pub total: usize,
    pub current_item: String,
}

/// Outcome of a batch download.
#[derive(Clone, Debug)]
pub struct DownloadResult {
    pub success: bool,
    pub items_processed: usize,
    pub items_downloaded: usize,
    pub error: Option<String>,
}

/// Counts over the local library.
#[derive(Clone, Debug)]
pub struct LibraryStats {
    pub total_series: usize,
    pub manga_series: usize,
    pub anime_series: usize,
    pub total_chapters: usize,
    pub total_episodes: usize,
    pub total_sources: usize,
    pub cache_entries: usize,
    pub expired_cache_entries: usize,
}

impl SeriesInsert {
    /// A field-for-field copy.
    pub fn copied(&self) -> (r: SeriesInsert)
        ensures
            r == *self,
    {
        SeriesInsert {
            id: self.id.clone(),
            kind: self.kind.clone(),
            title: self.title.clone(),
            alt_titles: copy_opt(&self.alt_titles),
            description: copy_opt(&self.description),
            cover_url: copy_opt(&self.cover_url),
            tags: copy_opt(&self.tags),
            status: copy_opt(&self.status),
        }
    }
}

impl SeriesSourceInsert {
    /// A field-for-field copy.
    pub fn copied(&self) -> (r: SeriesSourceInsert)
        ensures
            r == *self,
    {
        SeriesSourceInsert {
            series_id: self.series_id.clone(),
            source_id: self.source_id.clone(),
            external_id: self.external_id.clone(),
        }
    }
}

impl ChapterInsert {
    /// A field-for-field copy.
    pub fn copied(&self) -> (r: ChapterInsert)
        ensures
            r == *self,
    {
        ChapterInsert {
            id: self.id.clone(),
            series_id: self.series_id.clone(),
            source_id: self.source_id.clone(),
            external_id: self.external_id.clone(),
            number_text: copy_opt(&self.number_text),
            title: copy_opt(&self.title),
            lang: copy_opt(&self.lang),
            group: copy_opt(&self.group),
            published_at: copy_opt(&self.published_at),
            upload_group: copy_opt(&self.upload_group),
        }
    }
}

impl EpisodeInsert {
    /// A field-for-field copy.
    pub fn copied(&self) -> (r: EpisodeInsert)
        ensures
            r == *self,
    {
        EpisodeInsert {
            id: self.id.clone(),
            series_id: self.series_id.clone(),
            source_id: self.source_id.clone(),
            external_id: self.external_id.clone(),
            number_text: copy_opt(&self.number_text),
            title: copy_opt(&self.title),
            lang: copy_opt(&self.lang),
            season: copy_opt(&self.season),
            published_at: copy_opt(&self.published_at),
            upload_group: copy_opt(&self.upload_group),
        }
    }
}

impl StreamInsert {
    /// A field-for-field copy.
    pub fn copied(&self) -> (r: StreamInsert)
        ensures
            r == *self,
    {
        StreamInsert {
            episode_id: self.episode_id.clone(),
            url: self.url.clone(),
            quality: copy_opt(&self.quality),
            mime: copy_opt(&self.mime),
        }
    }
}

impl ChapterImageInsert {
    /// A field-for-field copy.
    pub fn copied(&self) -> (r: ChapterImageInsert)
        ensures
            r == *self,
    {
        ChapterImageInsert {
            chapter_id: self.chapter_id.clone(),
            idx: self.idx,
            url: self.url.clone(),
            mime: copy_opt(&self.mime),
            width: self.width,
            height: self.height,
        }
    }
}

impl ChapterProgress {
    /// A field-for-field copy.
    pub fn copied(&self) -> (r: ChapterProgress)
        ensures
            r == *self,
    {
        ChapterProgress {
            chapter_id: self.chapter_id.clone(),
            series_id: self.series_id.clone(),
            page_index: self.page_index,
            total_pages: self.total_pages,
            updated_at: self.updated_at,
        }
    }
}

impl SeriesPref {
    /// A field-for-field copy.
    pub fn copied(&self) -> (r: SeriesPref)
        ensures
            r == *self,
    {
        SeriesPref {
            series_id: self.series_id.clone(),
            download_path: copy_opt(&self.download_path),
        }
    }
}

/// The download path as the store keeps it: an absent path is kept as the
/// empty string.
pub open spec fn stored_path_spec(path: Option<Seq<char>>) -> Seq<char> {
    match path {
        Some(p) => p,
        None => Seq::empty(),
    }
}

/// The download path as the store keeps it.
pub fn stored_download_path(path: Option<&str>) -> (r: String)
    ensures
        r@ == stored_path_spec(
            match path {
                Some(p) => Some(p@),
                None => None,
            },
        ),
{
    match path {
        Some(p) => String::from_str(p),
        None => String::new(),
    }
}

/// The download path read back from what the store keeps: the empty string
/// reads as no path.
pub open spec fn read_back_spec(stored: Seq<char>) -> Option<Seq<char>> {
    if stored.len() == 0 {
        None
    } else {
        Some(stored)
    }
}

/// The preference read back for a series from its stored download path:
/// no row gives no preference.
pub fn pref_from_stored(series_id: &str, stored: Option<String>) -> (r: Option<SeriesPref>)
    ensures
        match stored {
            None => r.is_none(),
            Some(s) => r.is_some() && r.unwrap().series_id@ == series_id@ && match r.unwrap().download_path {
                Some(p) => read_back_spec(s@) == Some(p@),
                None => read_back_spec(s@).is_none(),
            },
        },
{
    match stored {
        None => None,
        Some(s) => {
            if s.unicode_len() == 0 {
                Some(SeriesPref { series_id: String::from_str(series_id), download_path: None })
            } else {
                Some(SeriesPref { series_id: String::from_str(series_id), download_path: Some(s) })
            }
        },
    }
}

/// Setting a download path and reading it back gives the path; setting the
/// empty path, or none, and reading back gives no path.
pub proof fn lemma_download_path_round_trip(p: Seq<char>)
    ensures
        p.len() > 0 ==> read_back_spec(stored_path_spec(Some(p))) == Some(p),
        read_back_spec(stored_path_spec(Some(Seq::empty()))).is_none(),
        read_back_spec(stored_path_spec(None)).is_none(),
{
}

} // verus!

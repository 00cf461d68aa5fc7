use vstd::prelude::*;

use crate::model::{copy_opt, Asset, Media, MediaType, Unit, UnitKind};
use crate::records::{
    ChapterInsert, EpisodeInsert, SeriesInsert, SeriesSourceInsert, StreamInsert,
};

verus! {

/// The lowercase kind word of a media type.
pub open spec fn kind_str_spec(mt: MediaType) -> Seq<char> {
    match mt {
        MediaType::Manga => "manga"@,
        MediaType::Anime => "anime"@,
        MediaType::Other(_) => "other"@,
    }
}

/// The kind word of a unit inside a derived id.
pub open spec fn unit_word_spec(k: UnitKind) -> Seq<char> {
    match k {
        UnitKind::Chapter => "chapter"@,
        UnitKind::Episode => "episode"@,
        UnitKind::Section => "section"@,
        UnitKind::Other(_) => "unit"@,
    }
}

/// A unit title kept only when it is not empty.
pub open spec fn title_opt_spec(t: String) -> Option<String> {
    if t@.len() == 0 {
        None
    } else {
        Some(t)
    }
}

pub fn kind_str(mt: &MediaType) -> (r: &'static str)
    ensures
        r@ == kind_str_spec(*mt),
{
    match mt {
        MediaType::Manga => "manga",
        MediaType::Anime => "anime",
        MediaType::Other(_) => "other",
    }
}

fn unit_word(k: &UnitKind) -> (r: &'static str)
    ensures
        r@ == unit_word_spec(*k),
{
    match k {
        UnitKind::Chapter => "chapter",
        UnitKind::Episode => "episode",
        UnitKind::Section => "section",
        UnitKind::Other(_) => "unit",
    }
}

fn title_opt(t: &String) -> (r: Option<String>)
    ensures
        r == title_opt_spec(*t),
{
    if t.unicode_len() == 0 {
        None
    } else {
        Some(t.clone())
    }
}

/// A series id derived from its provider: `series:<source>:<kind>:<external id>`.
pub fn series_id_from(source_id: &str, media: &Media) -> (r: String)
    ensures
        r@ == "series:"@ + source_id@ + ":"@ + kind_str_spec(media.mediatype) + ":"@ + media.id@,
{
    let mut r = String::from_str("series:");
    r.append(source_id);
    r.append(":");
    r.append(kind_str(&media.mediatype));
    r.append(":");
    r.append(media.id.as_str());
    r
}

/// A unit id derived from its provider: `<source>:<unit kind>:<external id>`.
pub fn chapter_id_from(source_id: &str, unit: &Unit) -> (r: String)
    ensures
        r@ == source_id@ + ":"@ + unit_word_spec(unit.kind) + ":"@ + unit.id@,
{
    let mut r = String::from_str(source_id);
    r.append(":");
    r.append(unit_word(&unit.kind));
    r.append(":");
    r.append(unit.id.as_str());
    r
}

/// The series row for a media entry under the given canonical id.
pub fn series_insert_from_media(id: String, media: &Media) -> (r: SeriesInsert)
    ensures
        r.id == id,
        r.kind@ == kind_str_spec(media.mediatype),
        r.title == media.title,
        r.alt_titles.is_none(),
        r.description == media.description,
        r.cover_url == media.cover_url,
        r.tags.is_none(),
        r.status.is_none(),
{
    SeriesInsert {
        id,
        kind: String::from_str(kind_str(&media.mediatype)),
        title: media.title.clone(),
        alt_titles: None,
        description: copy_opt(&media.description),
        cover_url: copy_opt(&media.cover_url),
        tags: None,
        status: None,
    }
}

/// The mapping row of an external id onto a canonical series.
pub fn series_source_from(series_id: String, source_id: String, external_id: String) -> (r:
    SeriesSourceInsert)
    ensures
        r.series_id == series_id,
        r.source_id == source_id,
        r.external_id == external_id,
{
    SeriesSourceInsert { series_id, source_id, external_id }
}

/// The chapter row for a unit: every field copied, an empty title left out.
pub fn chapter_insert_from_unit(id: String, series_id: String, source_id: String, u: &Unit) -> (r:
    ChapterInsert)
    ensures
        r.id == id,
        r.series_id == series_id,
        r.source_id == source_id,
        r.external_id == u.id,
        r.number_text == u.number_text,
        r.title == title_opt_spec(u.title),
        r.lang == u.lang,
        r.group == u.group,
        r.published_at == u.published_at,
        r.upload_group == u.upload_group,
{
    ChapterInsert {
        id,
        series_id,
        source_id,
        external_id: u.id.clone(),
        number_text: copy_opt(&u.number_text),
        title: title_opt(&u.title),
        lang: copy_opt(&u.lang),
        group: copy_opt(&u.group),
        published_at: copy_opt(&u.published_at),
        upload_group: copy_opt(&u.upload_group),
    }
}

/// The episode row for a unit: the unit's group is the season, an empty
/// title is left out.
pub fn episode_insert_from_unit(id: String, series_id: String, source_id: String, u: &Unit) -> (r:
    EpisodeInsert)
    ensures
        r.id == id,
        r.series_id == series_id,
        r.source_id == source_id,
        r.external_id == u.id,
        r.number_text == u.number_text,
        r.title == title_opt_spec(u.title),
        r.lang == u.lang,
        r.season == u.group,
        r.published_at == u.published_at,
        r.upload_group == u.upload_group,
{
    EpisodeInsert {
        id,
        series_id,
        source_id,
        external_id: u.id.clone(),
        number_text: copy_opt(&u.number_text),
        title: title_opt(&u.title),
        lang: copy_opt(&u.lang),
        season: copy_opt(&u.group),
        published_at: copy_opt(&u.published_at),
        upload_group: copy_opt(&u.upload_group),
    }
}

/// The stream rows of an episode, one per asset in order, with no quality.
pub fn streams_from_assets(episode_id: &String, assets: &Vec<Asset>) -> (r: Vec<StreamInsert>)
    ensures
        r@.len() == assets@.len(),
        forall|i: int|
            0 <= i < r@.len() ==> (#[trigger] r@[i]).episode_id == *episode_id && r@[i].url
                == assets@[i].url && r@[i].quality.is_none() && r@[i].mime == assets@[i].mime,
{
    let mut out: Vec<StreamInsert> = Vec::new();
    let mut i: usize = 0;
    while i < assets.len()
        invariant
            i <= assets@.len(),
            out@.len() == i,
            forall|k: int|
                0 <= k < i ==> (#[trigger] out@[k]).episode_id == *episode_id && out@[k].url
                    == assets@[k].url && out@[k].quality.is_none() && out@[k].mime
                    == assets@[k].mime,
        decreases assets@.len() - i,
    {
        out.push(
            StreamInsert {
                episode_id: episode_id.clone(),
                url: assets[i].url.clone(),
                quality: None,
                mime: copy_opt(&assets[i].mime),
            },
        );
        i = i + 1;
    }
    out
}

} // verus!

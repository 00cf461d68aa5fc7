use vstd::prelude::*;

verus! {

/// Kind of work a provider lists.
#[derive(Clone, Debug)]
pub enum MediaType {
    Manga,
    Anime,
    Other(String),
}

/// Kind of child entry of a work.
#[derive(Clone, Debug)]
pub enum UnitKind {
    Chapter,
    Episode,
    Section,
    Other(String),
}

/// Kind of leaf resource.
#[derive(Clone, Debug)]
pub enum AssetKind {
    Page,
    Image,
    Video,
    Other(String),
}

/// A work as a provider describes it.
#[derive(Clone, Debug)]
pub struct Media {
    pub id: String,
    pub mediatype: MediaType,
    pub title: String,
    pub description: Option<String>,
    pub url: Option<String>,
    pub cover_url: Option<String>,
}

/// A chapter, episode or section as a provider describes it.  The numeric
/// chapter number travels outside the library, beside `number_text`.
#[derive(Clone, Debug)]
pub struct Unit {
    pub id: String,
    pub title: String,
    pub number_text: Option<String>,
    pub lang: Option<String>,
    pub group: Option<String>,
    pub url: Option<String>,
    pub published_at: Option<String>,
    pub upload_group: Option<String>,
    pub kind: UnitKind,
}

/// A page image, cover image or video stream.
#[derive(Clone, Debug)]
pub struct Asset {
    pub url: String,
    pub mime: Option<String>,
    pub width: Option<u32>,
    pub height: Option<u32>,
    pub kind: AssetKind,
}

/// What a provider declares it can serve.
#[derive(Clone, Debug)]
pub struct ProviderCapabilities {
    pub media_types: Vec<MediaType>,
    pub unit_kinds: Vec<UnitKind>,
    pub asset_kinds: Vec<AssetKind>,
}

/// A copy of an optional string.
pub fn copy_opt(o: &Option<String>) -> (r: Option<String>)
    ensures
        r == *o,
{
    match o {
        Some(s) => Some(s.clone()),
        None => None,
    }
}

impl MediaType {
    pub fn copied(&self) -> (r: MediaType)
        ensures
            r == *self,
    {
        match self {
            MediaType::Manga => MediaType::Manga,
            MediaType::Anime => MediaType::Anime,
            MediaType::Other(s) => MediaType::Other(s.clone()),
        }
    }
}

impl UnitKind {
    pub fn copied(&self) -> (r: UnitKind)
        ensures
            r == *self,
    {
        match self {
            UnitKind::Chapter => UnitKind::Chapter,
            UnitKind::Episode => UnitKind::Episode,
            UnitKind::Section => UnitKind::Section,
            UnitKind::Other(s) => UnitKind::Other(s.clone()),
        }
    }
}

impl AssetKind {
    pub fn copied(&self) -> (r: AssetKind)
        ensures
            r == *self,
    {
        match self {
            AssetKind::Page => AssetKind::Page,
            AssetKind::Image => AssetKind::Image,
            AssetKind::Video => AssetKind::Video,
            AssetKind::Other(s) => AssetKind::Other(s.clone()),
        }
    }
}

impl Media {
    pub fn copied(&self) -> (r: Media)
        ensures
            r == *self,
    {
        Media {
            id: self.id.clone(),
            mediatype: self.mediatype.copied(),
            title: self.title.clone(),
            description: copy_opt(&self.description),
            url: copy_opt(&self.url),
            cover_url: copy_opt(&self.cover_url),
        }
    }
}

impl Unit {
    pub fn copied(&self) -> (r: Unit)
        ensures
            r == *self,
    {
        Unit {
            id: self.id.clone(),
            title: self.title.clone(),
            number_text: copy_opt(&self.number_text),
            lang: copy_opt(&self.lang),
            group: copy_opt(&self.group),
            url: copy_opt(&self.url),
            published_at: copy_opt(&self.published_at),
            upload_group: copy_opt(&self.upload_group),
            kind: self.kind.copied(),
        }
    }
}

impl Asset {
    pub fn copied(&self) -> (r: Asset)
        ensures
            r == *self,
    {
        Asset {
            url: self.url.clone(),
            mime: copy_opt(&self.mime),
            width: self.width,
            height: self.height,
            kind: self.kind.copied(),
        }
    }
}

} // verus!

use vstd::prelude::*;

verus! {

/// A chapter with its page images, as a simple source hands it out.
#[derive(Clone, Debug)]
pub struct Chapter {
    pub id: String,
    pub title: String,
    pub images: Vec<String>,
}

/// A manga as a simple source lists it.
#[derive(Clone, Debug)]
pub struct Manga {
    pub id: String,
    pub title: String,
    pub description: Option<String>,
    pub cover_url: Option<String>,
}

/// A simple in-process provider, for sources that need no sandbox.
pub trait Source {
    fn fetch_manga_list(&self, query: &str) -> Vec<Manga>;

    fn fetch_chapter_images(&self, chapter_id: &str) -> Vec<String>;
}

} // verus!

use vstd::prelude::*;

use crate::errors::CoreError;
use crate::flow::{plan_series_identity, series_row_ok, unit_row_id, SeriesPlan};
use crate::mapping::{chapter_insert_from_unit, episode_insert_from_unit};
use crate::model::{Media, Unit};
use crate::records::{
    read_back_spec, stored_download_path, stored_path_spec, ChapterImageInsert, ChapterInsert,
    ChapterProgress, EpisodeInsert, SeriesInsert, SeriesPref, SeriesSourceInsert, StreamInsert,
};
use crate::text::str_eq;

verus! {

/// The mapping row is the one for this source and external id.
pub open spec fn link_is(l: SeriesSourceInsert, source: Seq<char>, external: Seq<char>) -> bool {
    l.source_id@ == source && l.external_id@ == external
}

/// Two chapter rows share their conflict key `(series, source, external id)`.
pub open spec fn same_chapter_key(a: ChapterInsert, b: ChapterInsert) -> bool {
    a.series_id@ == b.series_id@ && a.source_id@ == b.source_id@ && a.external_id@
        == b.external_id@
}

/// Two episode rows share their conflict key `(series, source, external id)`.
pub open spec fn same_episode_key(a: EpisodeInsert, b: EpisodeInsert) -> bool {
    a.series_id@ == b.series_id@ && a.source_id@ == b.source_id@ && a.external_id@
        == b.external_id@
}

/// The chapter row has this conflict key.
pub open spec fn chapter_key_is(c: ChapterInsert, sid: Seq<char>, src: Seq<char>, ext: Seq<char>) -> bool {
    c.series_id@ == sid && c.source_id@ == src && c.external_id@ == ext
}

/// Some chapter row has this conflict key.
pub open spec fn has_chapter_key(rows: Seq<ChapterInsert>, sid: Seq<char>, src: Seq<char>, ext: Seq<char>) -> bool {
    exists|j: int| 0 <= j < rows.len() && chapter_key_is(rows[j], sid, src, ext)
}

/// The episode row has this conflict key.
pub open spec fn episode_key_is(e: EpisodeInsert, sid: Seq<char>, src: Seq<char>, ext: Seq<char>) -> bool {
    e.series_id@ == sid && e.source_id@ == src && e.external_id@ == ext
}

/// Some episode row has this conflict key.
pub open spec fn has_episode_key(rows: Seq<EpisodeInsert>, sid: Seq<char>, src: Seq<char>, ext: Seq<char>) -> bool {
    exists|j: int| 0 <= j < rows.len() && episode_key_is(rows[j], sid, src, ext)
}

/// A row with the same key and id as `o` is among the chapter rows.
pub open spec fn chapter_kept(rows: Seq<ChapterInsert>, o: ChapterInsert) -> bool {
    exists|m: int| 0 <= m < rows.len() && same_chapter_key(rows[m], o) && rows[m].id == o.id
}

/// A row with the same key and id as `o` is among the episode rows.
pub open spec fn episode_kept(rows: Seq<EpisodeInsert>, o: EpisodeInsert) -> bool {
    exists|m: int| 0 <= m < rows.len() && same_episode_key(rows[m], o) && rows[m].id == o.id
}

/// Some series row has this id.
pub open spec fn has_series(rows: Seq<SeriesInsert>, id: Seq<char>) -> bool {
    exists|j: int| 0 <= j < rows.len() && rows[j].id@ == id
}

/// Some mapping is the one for this source and external id.
pub open spec fn mapped(links: Seq<SeriesSourceInsert>, source: Seq<char>, external: Seq<char>) -> bool {
    exists|i: int| 0 <= i < links.len() && link_is(links[i], source, external)
}

/// A stream row made for the episode from one of the given streams: the
/// episode's id, and that stream's URL, quality and type.
pub open spec fn stream_from(row: StreamInsert, episode_id: Seq<char>, given: Seq<StreamInsert>) -> bool {
    row.episode_id@ == episode_id && exists|k: int|
        0 <= k < given.len() && row.url == given[k].url && row.quality == given[k].quality
            && row.mime == given[k].mime
}

/// A stream of this episode has this URL.
pub open spec fn has_stream(rows: Seq<StreamInsert>, episode_id: Seq<char>, url: Seq<char>) -> bool {
    exists|m: int| 0 <= m < rows.len() && rows[m].episode_id@ == episode_id && rows[m].url@ == url
}

/// A chapter of the given series has this id.
pub open spec fn chapter_of_series(chapters: Seq<ChapterInsert>, sid: Seq<char>, cid: Seq<char>) -> bool {
    exists|i: int| 0 <= i < chapters.len() && chapters[i].series_id@ == sid && chapters[i].id@ == cid
}

/// An episode of the given series has this id.
pub open spec fn episode_of_series(episodes: Seq<EpisodeInsert>, sid: Seq<char>, eid: Seq<char>) -> bool {
    exists|i: int| 0 <= i < episodes.len() && episodes[i].series_id@ == sid && episodes[i].id@ == eid
}

/// An in-memory library store with the conflict rules of the SQL schema.
#[derive(Clone, Debug)]
pub struct MemoryStore {
    pub series: Vec<SeriesInsert>,
    pub links: Vec<SeriesSourceInsert>,
    pub chapters: Vec<ChapterInsert>,
    pub episodes: Vec<EpisodeInsert>,
    pub streams: Vec<StreamInsert>,
    pub images: Vec<ChapterImageInsert>,
    pub progress: Vec<ChapterProgress>,
    pub prefs: Vec<SeriesPref>,
}

impl MemoryStore {
    /// The store's rules: one series row per id, one mapping per `(source,
    /// external id)` and each mapping pointing at a series row, one chapter
    /// and one episode row per conflict key, one preference row per series.
    pub open spec fn wf(&self) -> bool {
        &&& forall|i: int|
            0 <= i < self.links@.len() ==> has_series(
                self.series@,
                (#[trigger] self.links@[i]).series_id@,
            )
        &&& forall|i: int, j: int|
            0 <= i < j < self.episodes@.len() ==> !same_episode_key(
                self.episodes@[i],
                self.episodes@[j],
            )
        &&& forall|i: int, j: int|
            0 <= i < j < self.series@.len() ==> self.series@[i].id@ != self.series@[j].id@
        &&& forall|i: int, j: int|
            0 <= i < j < self.links@.len() ==> !link_is(
                self.links@[i],
                self.links@[j].source_id@,
                self.links@[j].external_id@,
            )
        &&& forall|i: int, j: int|
            0 <= i < j < self.chapters@.len() ==> !same_chapter_key(
                self.chapters@[i],
                self.chapters@[j],
            )
        &&& forall|i: int, j: int|
            0 <= i < j < self.prefs@.len() ==> self.prefs@[i].series_id@
                != self.prefs@[j].series_id@
    }

    /// An empty store.
    pub fn new() -> (r: MemoryStore)
        ensures
            r.wf(),
            r.series@.len() == 0,
            r.links@.len() == 0,
            r.chapters@.len() == 0,
            r.episodes@.len() == 0,
            r.streams@.len() == 0,
            r.images@.len() == 0,
            r.progress@.len() == 0,
            r.prefs@.len() == 0,
    {
        MemoryStore {
            series: Vec::new(),
            links: Vec::new(),
            chapters: Vec::new(),
            episodes: Vec::new(),
            streams: Vec::new(),
            images: Vec::new(),
            progress: Vec::new(),
            prefs: Vec::new(),
        }
    }

    /// The series mapped to a provider's external id.
    pub fn find_series_id_by_source_external(&self, source: &str, external: &str) -> (r: Option<
        String,
    >)
        ensures
            match r {
                Some(id) => exists|i: int|
                    0 <= i < self.links@.len() && link_is(self.links@[i], source@, external@)
                        && self.links@[i].series_id == id,
                None => forall|i: int|
                    0 <= i < self.links@.len() ==> !link_is(
                        #[trigger] self.links@[i],
                        source@,
                        external@,
                    ),
            },
    {
        let mut i: usize = 0;
        while i < self.links.len()
            invariant
                i <= self.links@.len(),
                forall|k: int|
                    0 <= k < i ==> !link_is(#[trigger] self.links@[k], source@, external@),
            decreases self.links@.len() - i,
        {
            let l = &self.links[i];
            if str_eq(l.source_id.as_str(), source) && str_eq(l.external_id.as_str(), external) {
                return Some(l.series_id.clone());
            }
            i = i + 1;
        }
        None
    }

    fn series_index(&self, id: &str) -> (r: Option<usize>)
        ensures
            match r {
                Some(i) => i < self.series@.len() && self.series@[i as int].id@ == id@,
                None => forall|k: int|
                    0 <= k < self.series@.len() ==> (#[trigger] self.series@[k]).id@ != id@,
            },
    {
        let mut i: usize = 0;
        while i < self.series.len()
            invariant
                i <= self.series@.len(),
                forall|k: int| 0 <= k < i ==> (#[trigger] self.series@[k]).id@ != id@,
            decreases self.series@.len() - i,
        {
            if str_eq(self.series[i].id.as_str(), id) {
                return Some(i);
            }
            i = i + 1;
        }
        None
    }

    /// Inserts a series row, or replaces the row with its id.
    pub fn upsert_series(&mut self, s: SeriesInsert)
        requires
            old(self).wf(),
        ensures
            final(self).wf(),
            exists|i: int| 0 <= i < final(self).series@.len() && final(self).series@[i] == s,
            forall|i: int|
                0 <= i < final(self).series@.len() && final(self).series@[i].id@ != s.id@
                    ==> old(self).series@.contains(#[trigger] final(self).series@[i]),
            forall|i: int|
                0 <= i < old(self).series@.len() && old(self).series@[i].id@ != s.id@
                    ==> final(self).series@.contains(#[trigger] old(self).series@[i]),
            final(self).links == old(self).links,
            final(self).chapters == old(self).chapters,
            final(self).episodes == old(self).episodes,
            final(self).prefs == old(self).prefs,
    {
        let ghost before = self.series@;
        match self.series_index(s.id.as_str()) {
            Some(i) => {
                self.series.set(i, s);
                assert(self.series@[i as int] == s);
                assert forall|k: int|
                    0 <= k < before.len() && before[k].id@ != s.id@ implies self.series@.contains(
                    #[trigger] before[k],
                ) by {
                    assert(self.series@[k] == before[k]);
                }
                assert forall|k: int|
                    0 <= k < self.series@.len() && self.series@[k].id@ != s.id@ implies before.contains(
                    #[trigger] self.series@[k],
                ) by {
                    assert(self.series@[k] == before[k]);
                }
            },
            None => {
                self.series.push(s);
                assert(self.series@[before.len() as int] == s);
                assert forall|k: int|
                    0 <= k < before.len() && before[k].id@ != s.id@ implies self.series@.contains(
                    #[trigger] before[k],
                ) by {
                    assert(self.series@[k] == before[k]);
                }
                assert forall|k: int|
                    0 <= k < self.series@.len() && self.series@[k].id@ != s.id@ implies before.contains(
                    #[trigger] self.series@[k],
                ) by {
                    assert(self.series@[k] == before[k]);
                }
            },
        }
        proof {
            let sw = choose|i: int| 0 <= i < self.series@.len() && self.series@[i] == s;
            assert forall|i: int| 0 <= i < self.links@.len() implies has_series(
                self.series@,
                (#[trigger] self.links@[i]).series_id@,
            ) by {
                let id = self.links@[i].series_id@;
                let j = choose|j: int| 0 <= j < before.len() && before[j].id@ == id;
                if before[j].id@ == s.id@ {
                    assert(self.series@[sw].id@ == id);
                } else {
                    assert(self.series@.contains(before[j]));
                    let m = choose|m: int| 0 <= m < self.series@.len() && self.series@[m] == before[j];
                    assert(self.series@[m].id@ == id);
                }
            }
        }
    }

    /// The canonical series id of a provider's external id.  A mapped id keeps
    /// its series, whose row is only rewritten by an entry with a title; a new
    /// id gets a fresh series and exactly one mapping.
    pub fn get_or_create_series_id(&mut self, source: &str, external: &str, media: &Media) -> (r:
        String)
        requires
            old(self).wf(),
        ensures
            final(self).wf(),
            exists|i: int|
                0 <= i < final(self).links@.len() && link_is(final(self).links@[i], source@, external@)
                    && final(self).links@[i].series_id == r,
            (exists|i: int|
                0 <= i < old(self).links@.len() && link_is(old(self).links@[i], source@, external@)
                    && old(self).links@[i].series_id == r) || forall|i: int|
                0 <= i < old(self).links@.len() ==> !link_is(
                    #[trigger] old(self).links@[i],
                    source@,
                    external@,
                ),
            forall|i: int|
                0 <= i < old(self).links@.len() ==> final(self).links@.contains(
                    #[trigger] old(self).links@[i],
                ),
            forall|i: int|
                0 <= i < final(self).links@.len() && !link_is(
                    final(self).links@[i],
                    source@,
                    external@,
                ) ==> old(self).links@.contains(#[trigger] final(self).links@[i]),
            has_series(final(self).series@, r@),
            !mapped(old(self).links@, source@, external@) || media.title@.len() > 0 ==> exists|j: int|
                0 <= j < final(self).series@.len() && series_row_ok(final(self).series@[j], r, *media),
            mapped(old(self).links@, source@, external@) && media.title@.len() == 0
                ==> final(self).series == old(self).series,
            final(self).chapters == old(self).chapters,
            final(self).episodes == old(self).episodes,
            final(self).prefs == old(self).prefs,
    {
        let existing = self.find_series_id_by_source_external(source, external);
        let plan = plan_series_identity(source, external, existing, media);
        match plan {
            SeriesPlan::Reuse { series_id, update } => {
                proof {
                    let i = choose|i: int|
                        0 <= i < self.links@.len() && link_is(self.links@[i], source@, external@)
                            && self.links@[i].series_id == series_id;
                    assert(has_series(self.series@, self.links@[i].series_id@));
                }
                match update {
                    Some(row) => {
                        self.upsert_series(row);
                        assert(series_row_ok(row, series_id, *media));
                        let ghost j = choose|j: int|
                            0 <= j < self.series@.len() && self.series@[j] == row;
                        assert(self.series@[j].id@ == series_id@);
                    },
                    None => {},
                }
                series_id
            },
            SeriesPlan::Create { series, link } => {
                let id = series.id.clone();
                let ghost srow = series;
                self.upsert_series(series);
                let ghost before = self.links@;
                self.links.push(link);
                proof {
                    let j = choose|j: int| 0 <= j < self.series@.len() && self.series@[j] == srow;
                    assert(self.series@[j].id@ == id@);
                    assert(series_row_ok(self.series@[j], id, *media));
                    assert forall|k: int| 0 <= k < self.links@.len() implies has_series(
                        self.series@,
                        (#[trigger] self.links@[k]).series_id@,
                    ) by {
                        if k < before.len() {
                            assert(self.links@[k] == before[k]);
                        } else {
                            assert(self.links@[k] == link);
                        }
                    }
                    assert(self.links@[before.len() as int] == link);
                    assert forall|k: int| 0 <= k < before.len() implies self.links@.contains(
                        #[trigger] before[k],
                    ) by {
                        assert(self.links@[k] == before[k]);
                    }
                    assert forall|k: int|
                        0 <= k < self.links@.len() && !link_is(
                            self.links@[k],
                            source@,
                            external@,
                        ) implies before.contains(#[trigger] self.links@[k]) by {
                        assert(self.links@[k] == before[k]);
                    }
                }
                id
            },
        }
    }

    fn chapter_index(&self, c: &ChapterInsert) -> (r: Option<usize>)
        ensures
            match r {
                Some(i) => i < self.chapters@.len() && same_chapter_key(self.chapters@[i as int], *c),
                None => forall|k: int|
                    0 <= k < self.chapters@.len() ==> !same_chapter_key(
                        #[trigger] self.chapters@[k],
                        *c,
                    ),
            },
    {
        let mut i: usize = 0;
        while i < self.chapters.len()
            invariant
                i <= self.chapters@.len(),
                forall|k: int| 0 <= k < i ==> !same_chapter_key(#[trigger] self.chapters@[k], *c),
            decreases self.chapters@.len() - i,
        {
            let e = &self.chapters[i];
            if str_eq(e.series_id.as_str(), c.series_id.as_str()) && str_eq(
                e.source_id.as_str(),
                c.source_id.as_str(),
            ) && str_eq(e.external_id.as_str(), c.external_id.as_str()) {
                return Some(i);
            }
            i = i + 1;
        }
        None
    }

    /// Inserts a chapter row, or, on its conflict key, replaces every field of
    /// the row already there.
    pub fn upsert_chapter(&mut self, c: ChapterInsert)
        requires
            old(self).wf(),
        ensures
            final(self).wf(),
            forall|i: int|
                0 <= i < final(self).chapters@.len() && same_chapter_key(
                    final(self).chapters@[i],
                    c,
                ) ==> #[trigger] final(self).chapters@[i] == c,
            exists|i: int| 0 <= i < final(self).chapters@.len() && final(self).chapters@[i] == c,
            forall|i: int|
                0 <= i < old(self).chapters@.len() && !same_chapter_key(old(self).chapters@[i], c)
                    ==> final(self).chapters@.contains(#[trigger] old(self).chapters@[i]),
            final(self).series == old(self).series,
            final(self).links == old(self).links,
            final(self).episodes == old(self).episodes,
            final(self).prefs == old(self).prefs,
    {
        let ghost before = self.chapters@;
        match self.chapter_index(&c) {
            Some(i) => {
                self.chapters.set(i, c);
                proof {
                    assert forall|a: int, b: int|
                        0 <= a < b < self.chapters@.len() implies !same_chapter_key(
                        self.chapters@[a],
                        self.chapters@[b],
                    ) by {
                        if a == i {
                            assert(!same_chapter_key(before[a], before[b]));
                        } else if b == i {
                            assert(!same_chapter_key(before[a], before[b]));
                        } else {
                            assert(self.chapters@[a] == before[a] && self.chapters@[b] == before[b]);
                        }
                    }
                    assert forall|k: int|
                        0 <= k < self.chapters@.len() && same_chapter_key(
                            self.chapters@[k],
                            c,
                        ) implies #[trigger] self.chapters@[k] == c by {
                        if k != i {
                            if k < i {
                                assert(!same_chapter_key(before[k], before[i as int]));
                            } else {
                                assert(!same_chapter_key(before[i as int], before[k]));
                            }
                        }
                    }
                    assert(self.chapters@[i as int] == c);
                    assert forall|k: int|
                        0 <= k < before.len() && !same_chapter_key(before[k], c) implies self.chapters@.contains(
                        #[trigger] before[k],
                    ) by {
                        assert(self.chapters@[k] == before[k]);
                    }
                }
            },
            None => {
                self.chapters.push(c);
                proof {
                    assert forall|a: int, b: int|
                        0 <= a < b < self.chapters@.len() implies !same_chapter_key(
                        self.chapters@[a],
                        self.chapters@[b],
                    ) by {
                        assert(self.chapters@[a] == before[a]);
                        if b < before.len() {
                            assert(self.chapters@[b] == before[b]);
                        }
                    }
                    assert(self.chapters@[before.len() as int] == c);
                    assert forall|k: int|
                        0 <= k < before.len() && !same_chapter_key(before[k], c) implies self.chapters@.contains(
                        #[trigger] before[k],
                    ) by {
                        assert(self.chapters@[k] == before[k]);
                    }
                }
            },
        }
    }

    fn episode_index(&self, c: &EpisodeInsert) -> (r: Option<usize>)
        ensures
            match r {
                Some(i) => i < self.episodes@.len() && same_episode_key(self.episodes@[i as int], *c),
                None => forall|k: int|
                    0 <= k < self.episodes@.len() ==> !same_episode_key(
                        #[trigger] self.episodes@[k],
                        *c,
                    ),
            },
    {
        let mut i: usize = 0;
        while i < self.episodes.len()
            invariant
                i <= self.episodes@.len(),
                forall|k: int| 0 <= k < i ==> !same_episode_key(#[trigger] self.episodes@[k], *c),
            decreases self.episodes@.len() - i,
        {
            let e = &self.episodes[i];
            if str_eq(e.series_id.as_str(), c.series_id.as_str()) && str_eq(
                e.source_id.as_str(),
                c.source_id.as_str(),
            ) && str_eq(e.external_id.as_str(), c.external_id.as_str()) {
                return Some(i);
            }
            i = i + 1;
        }
        None
    }

    /// Inserts an episode row, or, on its conflict key, replaces every field of
    /// the row already there.
    pub fn upsert_episode(&mut self, c: EpisodeInsert)
        requires
            old(self).wf(),
        ensures
            final(self).wf(),
            forall|i: int|
                0 <= i < final(self).episodes@.len() && same_episode_key(
                    final(self).episodes@[i],
                    c,
                ) ==> #[trigger] final(self).episodes@[i] == c,
            exists|i: int| 0 <= i < final(self).episodes@.len() && final(self).episodes@[i] == c,
            forall|i: int|
                0 <= i < old(self).episodes@.len() && !same_episode_key(old(self).episodes@[i], c)
                    ==> final(self).episodes@.contains(#[trigger] old(self).episodes@[i]),
            final(self).series == old(self).series,
            final(self).links == old(self).links,
            final(self).chapters == old(self).chapters,
            final(self).prefs == old(self).prefs,
    {
        let ghost before = self.episodes@;
        match self.episode_index(&c) {
            Some(i) => {
                self.episodes.set(i, c);
                proof {
                    assert forall|a: int, b: int|
                        0 <= a < b < self.episodes@.len() implies !same_episode_key(
                        self.episodes@[a],
                        self.episodes@[b],
                    ) by {
                        if a == i {
                            assert(!same_episode_key(before[a], before[b]));
                        } else if b == i {
                            assert(!same_episode_key(before[a], before[b]));
                        } else {
                            assert(self.episodes@[a] == before[a] && self.episodes@[b] == before[b]);
                        }
                    }
                    assert forall|k: int|
                        0 <= k < self.episodes@.len() && same_episode_key(
                            self.episodes@[k],
                            c,
                        ) implies #[trigger] self.episodes@[k] == c by {
                        if k != i {
                            if k < i {
                                assert(!same_episode_key(before[k], before[i as int]));
                            } else {
                                assert(!same_episode_key(before[i as int], before[k]));
                            }
                        }
                    }
                    assert(self.episodes@[i as int] == c);
                    assert forall|k: int|
                        0 <= k < before.len() && !same_episode_key(before[k], c) implies self.episodes@.contains(
                        #[trigger] before[k],
                    ) by {
                        assert(self.episodes@[k] == before[k]);
                    }
                }
            },
            None => {
                self.episodes.push(c);
                proof {
                    assert forall|a: int, b: int|
                        0 <= a < b < self.episodes@.len() implies !same_episode_key(
                        self.episodes@[a],
                        self.episodes@[b],
                    ) by {
                        assert(self.episodes@[a] == before[a]);
                        if b < before.len() {
                            assert(self.episodes@[b] == before[b]);
                        }
                    }
                    assert(self.episodes@[before.len() as int] == c);
                    assert forall|k: int|
                        0 <= k < before.len() && !same_episode_key(before[k], c) implies self.episodes@.contains(
                        #[trigger] before[k],
                    ) by {
                        assert(self.episodes@[k] == before[k]);
                    }
                }
            },
        }
    }

    /// The id of the chapter row with this conflict key, if there is one.
    pub fn find_chapter_id_by_mapping(&self, series_id: &str, source: &str, external: &str) -> (r:
        Option<String>)
        ensures
            match r {
                Some(id) => exists|j: int|
                    0 <= j < self.chapters@.len() && chapter_key_is(
                        self.chapters@[j],
                        series_id@,
                        source@,
                        external@,
                    ) && self.chapters@[j].id == id,
                None => !has_chapter_key(self.chapters@, series_id@, source@, external@),
            },
    {
        let mut i: usize = 0;
        while i < self.chapters.len()
            invariant
                i <= self.chapters@.len(),
                forall|k: int|
                    0 <= k < i ==> !chapter_key_is(
                        #[trigger] self.chapters@[k],
                        series_id@,
                        source@,
                        external@,
                    ),
            decreases self.chapters@.len() - i,
        {
            let c = &self.chapters[i];
            if str_eq(c.series_id.as_str(), series_id) && str_eq(c.source_id.as_str(), source)
                && str_eq(c.external_id.as_str(), external) {
                return Some(c.id.clone());
            }
            i = i + 1;
        }
        None
    }

    /// The id of the episode row with this conflict key, if there is one.
    pub fn find_episode_id_by_mapping(&self, series_id: &str, source: &str, external: &str) -> (r:
        Option<String>)
        ensures
            match r {
                Some(id) => exists|j: int|
                    0 <= j < self.episodes@.len() && episode_key_is(
                        self.episodes@[j],
                        series_id@,
                        source@,
                        external@,
                    ) && self.episodes@[j].id == id,
                None => !has_episode_key(self.episodes@, series_id@, source@, external@),
            },
    {
        let mut i: usize = 0;
        while i < self.episodes.len()
            invariant
                i <= self.episodes@.len(),
                forall|k: int|
                    0 <= k < i ==> !episode_key_is(
                        #[trigger] self.episodes@[k],
                        series_id@,
                        source@,
                        external@,
                    ),
            decreases self.episodes@.len() - i,
        {
            let c = &self.episodes[i];
            if str_eq(c.series_id.as_str(), series_id) && str_eq(c.source_id.as_str(), source)
                && str_eq(c.external_id.as_str(), external) {
                return Some(c.id.clone());
            }
            i = i + 1;
        }
        None
    }

    /// The id of some episode row of any series with this source and
    /// external id, if there is one.
    pub fn find_episode_id_by_source_external(&self, source: &str, external: &str) -> (r: Option<
        String,
    >)
        ensures
            match r {
                Some(id) => exists|j: int|
                    0 <= j < self.episodes@.len() && self.episodes@[j].source_id@ == source@
                        && self.episodes@[j].external_id@ == external@ && self.episodes@[j].id == id,
                None => forall|j: int|
                    0 <= j < self.episodes@.len() ==> !((#[trigger] self.episodes@[j]).source_id@
                        == source@ && self.episodes@[j].external_id@ == external@),
            },
    {
        let mut i: usize = 0;
        while i < self.episodes.len()
            invariant
                i <= self.episodes@.len(),
                forall|k: int|
                    0 <= k < i ==> !((#[trigger] self.episodes@[k]).source_id@ == source@
                        && self.episodes@[k].external_id@ == external@),
            decreases self.episodes@.len() - i,
        {
            let c = &self.episodes[i];
            if str_eq(c.source_id.as_str(), source) && str_eq(c.external_id.as_str(), external) {
                return Some(c.id.clone());
            }
            i = i + 1;
        }
        None
    }

    /// Stores a unit as a chapter row of a series: the row already there for
    /// the unit keeps its id and takes the unit's fields; a new unit gets a
    /// fresh id.  Every row that was there keeps its key and id.
    pub fn record_chapter(&mut self, series_id: &String, source: &str, u: &Unit)
        requires
            old(self).wf(),
        ensures
            final(self).wf(),
            has_chapter_key(final(self).chapters@, series_id@, source@, u.id@),
            forall|j: int|
                0 <= j < old(self).chapters@.len() ==> chapter_kept(
                    final(self).chapters@,
                    #[trigger] old(self).chapters@[j],
                ),
            final(self).series == old(self).series,
            final(self).links == old(self).links,
            final(self).episodes == old(self).episodes,
            final(self).prefs == old(self).prefs,
    {
        let existing = self.find_chapter_id_by_mapping(series_id.as_str(), source, u.id.as_str());
        let id = unit_row_id(existing);
        let row = chapter_insert_from_unit(id, series_id.clone(), String::from_str(source), u);
        let ghost before = self.chapters@;
        self.upsert_chapter(row);
        proof {
            let m = choose|m: int| 0 <= m < self.chapters@.len() && self.chapters@[m] == row;
            assert(chapter_key_is(self.chapters@[m], series_id@, source@, u.id@));
            assert forall|j: int| 0 <= j < before.len() implies chapter_kept(
                self.chapters@,
                #[trigger] before[j],
            ) by {
                let o = before[j];
                if same_chapter_key(o, row) {
                    let w = choose|w: int|
                        0 <= w < before.len() && chapter_key_is(before[w], series_id@, source@, u.id@)
                            && before[w].id == row.id;
                    if w < j {
                        assert(!same_chapter_key(before[w], before[j]));
                    } else if j < w {
                        assert(!same_chapter_key(before[j], before[w]));
                    }
                    assert(same_chapter_key(self.chapters@[m], o));
                } else {
                    assert(self.chapters@.contains(o));
                    let n = choose|n: int| 0 <= n < self.chapters@.len() && self.chapters@[n] == o;
                    assert(same_chapter_key(self.chapters@[n], o));
                }
            }
        }
    }

    /// Stores a unit as an episode row of a series: the row already there for
    /// the unit keeps its id and takes the unit's fields; a new unit gets a
    /// fresh id.  Every row that was there keeps its key and id.
    pub fn record_episode(&mut self, series_id: &String, source: &str, u: &Unit)
        requires
            old(self).wf(),
        ensures
            final(self).wf(),
            has_episode_key(final(self).episodes@, series_id@, source@, u.id@),
            forall|j: int|
                0 <= j < old(self).episodes@.len() ==> episode_kept(
                    final(self).episodes@,
                    #[trigger] old(self).episodes@[j],
                ),
            final(self).series == old(self).series,
            final(self).links == old(self).links,
            final(self).chapters == old(self).chapters,
            final(self).prefs == old(self).prefs,
    {
        let existing = self.find_episode_id_by_mapping(series_id.as_str(), source, u.id.as_str());
        let id = unit_row_id(existing);
        let row = episode_insert_from_unit(id, series_id.clone(), String::from_str(source), u);
        let ghost before = self.episodes@;
        self.upsert_episode(row);
        proof {
            let m = choose|m: int| 0 <= m < self.episodes@.len() && self.episodes@[m] == row;
            assert(episode_key_is(self.episodes@[m], series_id@, source@, u.id@));
            assert forall|j: int| 0 <= j < before.len() implies episode_kept(
                self.episodes@,
                #[trigger] before[j],
            ) by {
                let o = before[j];
                if same_episode_key(o, row) {
                    let w = choose|w: int|
                        0 <= w < before.len() && episode_key_is(before[w], series_id@, source@, u.id@)
                            && before[w].id == row.id;
                    if w < j {
                        assert(!same_episode_key(before[w], before[j]));
                    } else if j < w {
                        assert(!same_episode_key(before[j], before[w]));
                    }
                    assert(same_episode_key(self.episodes@[m], o));
                } else {
                    assert(self.episodes@.contains(o));
                    let n = choose|n: int| 0 <= n < self.episodes@.len() && self.episodes@[n] == o;
                    assert(same_episode_key(self.episodes@[n], o));
                }
            }
        }
    }

    fn pref_index(&self, series_id: &str) -> (r: Option<usize>)
        ensures
            match r {
                Some(i) => i < self.prefs@.len() && self.prefs@[i as int].series_id@ == series_id@,
                None => forall|k: int|
                    0 <= k < self.prefs@.len() ==> (#[trigger] self.prefs@[k]).series_id@
                        != series_id@,
            },
    {
        let mut i: usize = 0;
        while i < self.prefs.len()
            invariant
                i <= self.prefs@.len(),
                forall|k: int| 0 <= k < i ==> (#[trigger] self.prefs@[k]).series_id@ != series_id@,
            decreases self.prefs@.len() - i,
        {
            if str_eq(self.prefs[i].series_id.as_str(), series_id) {
                return Some(i);
            }
            i = i + 1;
        }
        None
    }

    /// The download path of a series, if one is set.
    pub fn get_series_download_path(&self, series_id: &str) -> (r: Option<String>)
        requires
            self.wf(),
        ensures
            match r {
                Some(p) => exists|i: int|
                    0 <= i < self.prefs@.len() && self.prefs@[i].series_id@ == series_id@
                        && self.prefs@[i].download_path == Some(p) && p@.len() > 0,
                None => forall|i: int|
                    0 <= i < self.prefs@.len() && (#[trigger] self.prefs@[i]).series_id@
                        == series_id@ ==> match self.prefs@[i].download_path {
                        Some(p) => p@.len() == 0,
                        None => true,
                    },
            },
    {
        match self.pref_index(series_id) {
            Some(i) => {
                proof {
                    assert forall|k: int|
                        0 <= k < self.prefs@.len() && (#[trigger] self.prefs@[k]).series_id@
                            == series_id@ implies k == i by {
                        if k < i {
                            assert(self.prefs@[k].series_id@ != self.prefs@[i as int].series_id@);
                        } else if k > i {
                            assert(self.prefs@[i as int].series_id@ != self.prefs@[k].series_id@);
                        }
                    }
                }
                match &self.prefs[i].download_path {
                    Some(p) => {
                        if p.unicode_len() > 0 {
                            Some(p.clone())
                        } else {
                            None
                        }
                    },
                    None => None,
                }
            },
            None => None,
        }
    }

    /// Sets a series' download path (the empty path, or none, clears it).
    /// A series that does not exist is `NotFound`.
    pub fn set_series_download_path(&mut self, series_id: &str, path: Option<&str>) -> (r: Result<
        (),
        CoreError,
    >)
        requires
            old(self).wf(),
        ensures
            final(self).wf(),
            r is Ok <==> exists|i: int|
                0 <= i < old(self).series@.len() && old(self).series@[i].id@ == series_id@,
            r is Err ==> r == Err::<(), CoreError>(CoreError::NotFound(r->Err_0->NotFound_0))
                && final(self).prefs == old(self).prefs,
            r is Ok ==> exists|i: int|
                0 <= i < final(self).prefs@.len() && final(self).prefs@[i].series_id@ == series_id@
                    && opt_text(final(self).prefs@[i].download_path) == stored_path_spec(
                    match path {
                        Some(p) => Some(p@),
                        None => None,
                    },
                ),
            final(self).series == old(self).series,
            final(self).links == old(self).links,
            final(self).chapters == old(self).chapters,
    {
        if self.series_index(series_id).is_none() {
            return Err(CoreError::NotFound(String::from_str(series_id)));
        }
        let stored = stored_download_path(path);
        let row = SeriesPref { series_id: String::from_str(series_id), download_path: Some(stored) };
        let ghost before = self.prefs@;
        match self.pref_index(series_id) {
            Some(i) => {
                self.prefs.set(i, row);
                assert(self.prefs@[i as int] == row);
            },
            None => {
                self.prefs.push(row);
                assert(self.prefs@[before.len() as int] == row);
            },
        }
        Ok(())
    }

    /// Resolves a chapter given by its canonical id or, failing that, by its
    /// external id, to `(canonical id, source, external id)`.
    pub fn find_chapter_fetch_info(&self, id: &str) -> (r: Option<(String, String, String)>)
        ensures
            match r {
                Some((cid, src, ext)) => exists|i: int|
                    0 <= i < self.chapters@.len() && self.chapters@[i].id == cid
                        && self.chapters@[i].source_id == src && self.chapters@[i].external_id
                        == ext && (self.chapters@[i].id@ == id@ || (self.chapters@[i].external_id@
                        == id@ && forall|k: int|
                        0 <= k < self.chapters@.len() ==> (#[trigger] self.chapters@[k]).id@
                            != id@)),
                None => forall|k: int|
                    0 <= k < self.chapters@.len() ==> (#[trigger] self.chapters@[k]).id@ != id@
                        && self.chapters@[k].external_id@ != id@,
            },
    {
        let mut i: usize = 0;
        while i < self.chapters.len()
            invariant
                i <= self.chapters@.len(),
                forall|k: int| 0 <= k < i ==> (#[trigger] self.chapters@[k]).id@ != id@,
            decreases self.chapters@.len() - i,
        {
            let c = &self.chapters[i];
            if str_eq(c.id.as_str(), id) {
                return Some((c.id.clone(), c.source_id.clone(), c.external_id.clone()));
            }
            i = i + 1;
        }
        let mut j: usize = 0;
        while j < self.chapters.len()
            invariant
                j <= self.chapters@.len(),
                forall|k: int| 0 <= k < self.chapters@.len() ==> (#[trigger] self.chapters@[k]).id@ != id@,
                forall|k: int| 0 <= k < j ==> (#[trigger] self.chapters@[k]).external_id@ != id@,
            decreases self.chapters@.len() - j,
        {
            let c = &self.chapters[j];
            if str_eq(c.external_id.as_str(), id) {
                return Some((c.id.clone(), c.source_id.clone(), c.external_id.clone()));
            }
            j = j + 1;
        }
        None
    }

    /// Adds an episode's streams; a stream whose `(episode, url)` is stored
    /// already is left as it is.
    pub fn upsert_streams(&mut self, episode_id: &str, streams: &Vec<StreamInsert>)
        requires
            old(self).wf(),
        ensures
            final(self).wf(),
            final(self).episodes == old(self).episodes,
            forall|m: int|
                0 <= m < final(self).streams@.len() ==> old(self).streams@.contains(
                    #[trigger] final(self).streams@[m],
                ) || stream_from(final(self).streams@[m], episode_id@, streams@),
            forall|i: int|
                0 <= i < old(self).streams@.len() ==> final(self).streams@.contains(
                    #[trigger] old(self).streams@[i],
                ),
            forall|i: int|
                0 <= i < streams@.len() ==> has_stream(
                    final(self).streams@,
                    episode_id@,
                    (#[trigger] streams@[i]).url@,
                ),
            final(self).series == old(self).series,
            final(self).links == old(self).links,
            final(self).chapters == old(self).chapters,
            final(self).prefs == old(self).prefs,
    {
        let mut i: usize = 0;
        while i < streams.len()
            invariant
                i <= streams@.len(),
                forall|k: int|
                    0 <= k < old(self).streams@.len() ==> self.streams@.contains(
                        #[trigger] old(self).streams@[k],
                    ),
                forall|k: int|
                    0 <= k < i ==> has_stream(self.streams@, episode_id@, (#[trigger] streams@[k]).url@),
                self.series == old(self).series,
                self.links == old(self).links,
                self.chapters == old(self).chapters,
                self.episodes == old(self).episodes,
                self.prefs == old(self).prefs,
                forall|m: int|
                    0 <= m < self.streams@.len() ==> old(self).streams@.contains(
                        #[trigger] self.streams@[m],
                    ) || stream_from(self.streams@[m], episode_id@, streams@),
            decreases streams@.len() - i,
        {
            let url = streams[i].url.as_str();
            let mut j: usize = 0;
            let mut found = false;
            while j < self.streams.len()
                invariant
                    j <= self.streams@.len(),
                    found ==> has_stream(self.streams@, episode_id@, url@),
                decreases self.streams@.len() - j,
            {
                if str_eq(self.streams[j].episode_id.as_str(), episode_id) && str_eq(
                    self.streams[j].url.as_str(),
                    url,
                ) {
                    found = true;
                }
                j = j + 1;
            }
            if !found {
                let ghost before = self.streams@;
                let row = StreamInsert {
                    episode_id: String::from_str(episode_id),
                    url: streams[i].url.clone(),
                    quality: crate::model::copy_opt(&streams[i].quality),
                    mime: crate::model::copy_opt(&streams[i].mime),
                };
                self.streams.push(row);
                proof {
                    assert(self.streams@[before.len() as int] == row);
                    assert(stream_from(row, episode_id@, streams@));
                    assert forall|m: int| 0 <= m < self.streams@.len() implies old(self).streams@.contains(
                        #[trigger] self.streams@[m],
                    ) || stream_from(self.streams@[m], episode_id@, streams@) by {
                        if m < before.len() {
                            assert(self.streams@[m] == before[m]);
                        }
                    }
                    assert forall|k: int|
                        0 <= k < old(self).streams@.len() implies self.streams@.contains(
                        #[trigger] old(self).streams@[k],
                    ) by {
                        let m = choose|m: int| 0 <= m < before.len() && before[m] == old(self).streams@[k];
                        assert(self.streams@[m] == before[m]);
                    }
                    assert forall|k: int| 0 <= k < i implies has_stream(
                        self.streams@,
                        episode_id@,
                        (#[trigger] streams@[k]).url@,
                    ) by {
                        let m = choose|m: int|
                            0 <= m < before.len() && before[m].episode_id@ == episode_id@
                                && before[m].url@ == streams@[k].url@;
                        assert(self.streams@[m] == before[m]);
                    }
                    assert(has_stream(self.streams@, episode_id@, url@));
                }
            }
            i = i + 1;
        }
    }

    /// Deletes a series and every row that refers to it: its mappings,
    /// chapters and episodes, their images and streams, its reading progress
    /// and preferences.  Returns the number of series rows removed.
    pub fn delete_series(&mut self, series_id: &str) -> (r: u64)
        requires
            old(self).wf(),
        ensures
            final(self).wf(),
            r == old(self).series@.len() - final(self).series@.len(),
            final(self).series@ == without_series(old(self).series@, series_id@),
            final(self).links@ == without_links(old(self).links@, series_id@),
            final(self).chapters@ == without_chapters(old(self).chapters@, series_id@),
            final(self).episodes@ == without_episodes(old(self).episodes@, series_id@),
            final(self).images@ == without_images(
                old(self).images@,
                old(self).chapters@,
                series_id@,
            ),
            final(self).streams@ == without_streams(
                old(self).streams@,
                old(self).episodes@,
                series_id@,
            ),
            final(self).progress@ == without_progress(old(self).progress@, series_id@),
            final(self).prefs@ == without_prefs(old(self).prefs@, series_id@),
    {
        let before = self.series.len();
        // Images and streams first: they are found through the chapter and
        // episode rows that are about to go.
        self.images = drop_images(&self.images, &self.chapters, series_id);
        self.streams = drop_streams(&self.streams, &self.episodes, series_id);
        self.series = drop_series_rows(&self.series, series_id);
        self.links = drop_links(&self.links, series_id);
        self.chapters = drop_chapters(&self.chapters, series_id);
        self.episodes = drop_episodes(&self.episodes, series_id);
        self.progress = drop_progress(&self.progress, series_id);
        self.prefs = drop_prefs(&self.prefs, series_id);
        proof {
            let sid = series_id@;
            old(self).series@.lemma_filter_len(other_series(sid));
            lemma_filter_keeps_pairs(
                old(self).series@,
                other_series(sid),
                |a: SeriesInsert, b: SeriesInsert| a.id@ != b.id@,
            );
            lemma_filter_keeps_pairs(
                old(self).links@,
                other_links(sid),
                |a: SeriesSourceInsert, b: SeriesSourceInsert|
                    !link_is(a, b.source_id@, b.external_id@),
            );
            lemma_filter_keeps_pairs(
                old(self).chapters@,
                other_chapters(sid),
                |a: ChapterInsert, b: ChapterInsert| !same_chapter_key(a, b),
            );
            lemma_filter_keeps_pairs(
                old(self).episodes@,
                other_episodes(sid),
                |a: EpisodeInsert, b: EpisodeInsert| !same_episode_key(a, b),
            );
            old(self).series@.filter_lemma(other_series(sid));
            old(self).links@.filter_lemma(other_links(sid));
            assert forall|i: int| 0 <= i < self.links@.len() implies has_series(
                self.series@,
                (#[trigger] self.links@[i]).series_id@,
            ) by {
                let l = self.links@[i];
                assert(self.links@ == old(self).links@.filter(other_links(sid)));
                assert(other_links(sid)(self.links@[i]));
                assert(l.series_id@ != sid);
                assert(old(self).links@.filter(other_links(sid)).contains(l));
                old(self).links@.lemma_filter_contains_rev(other_links(sid), l);
                let k = choose|k: int| 0 <= k < old(self).links@.len() && old(self).links@[k] == l;
                assert(has_series(old(self).series@, old(self).links@[k].series_id@));
                let j = choose|j: int|
                    0 <= j < old(self).series@.len() && old(self).series@[j].id@ == l.series_id@;
                assert(other_series(sid)(old(self).series@[j]));
                assert(self.series@ == old(self).series@.filter(other_series(sid)));
                assert(old(self).series@.filter(other_series(sid)).contains(old(self).series@[j]));
                let m = choose|m: int|
                    0 <= m < self.series@.len() && self.series@[m] == old(self).series@[j];
                assert(self.series@[m].id@ == l.series_id@);
            }
            lemma_filter_keeps_pairs(
                old(self).prefs@,
                other_prefs(sid),
                |a: SeriesPref, b: SeriesPref| a.series_id@ != b.series_id@,
            );
        }
        (before - self.series.len()) as u64
    }
}

/// Series rows are kept unless they have the id.
pub open spec fn other_series(sid: Seq<char>) -> spec_fn(SeriesInsert) -> bool {
    |x: SeriesInsert| x.id@ != sid
}

/// Mappings are kept unless they point at the series.
pub open spec fn other_links(sid: Seq<char>) -> spec_fn(SeriesSourceInsert) -> bool {
    |x: SeriesSourceInsert| x.series_id@ != sid
}

/// Chapters are kept unless they belong to the series.
pub open spec fn other_chapters(sid: Seq<char>) -> spec_fn(ChapterInsert) -> bool {
    |x: ChapterInsert| x.series_id@ != sid
}

/// Episodes are kept unless they belong to the series.
pub open spec fn other_episodes(sid: Seq<char>) -> spec_fn(EpisodeInsert) -> bool {
    |x: EpisodeInsert| x.series_id@ != sid
}

/// Preferences are kept unless they belong to the series.
pub open spec fn other_prefs(sid: Seq<char>) -> spec_fn(SeriesPref) -> bool {
    |x: SeriesPref| x.series_id@ != sid
}

/// Series rows other than the given one.
pub open spec fn without_series(rows: Seq<SeriesInsert>, sid: Seq<char>) -> Seq<SeriesInsert> {
    rows.filter(other_series(sid))
}

/// Mappings of other series.
pub open spec fn without_links(rows: Seq<SeriesSourceInsert>, sid: Seq<char>) -> Seq<
    SeriesSourceInsert,
> {
    rows.filter(other_links(sid))
}

/// Chapters of other series.
pub open spec fn without_chapters(rows: Seq<ChapterInsert>, sid: Seq<char>) -> Seq<ChapterInsert> {
    rows.filter(other_chapters(sid))
}

/// Episodes of other series.
pub open spec fn without_episodes(rows: Seq<EpisodeInsert>, sid: Seq<char>) -> Seq<EpisodeInsert> {
    rows.filter(other_episodes(sid))
}

/// Images of chapters that do not belong to the series.
pub open spec fn without_images(
    rows: Seq<ChapterImageInsert>,
    chapters: Seq<ChapterInsert>,
    sid: Seq<char>,
) -> Seq<ChapterImageInsert> {
    rows.filter(|x: ChapterImageInsert| !chapter_of_series(chapters, sid, x.chapter_id@))
}

/// Streams of episodes that do not belong to the series.
pub open spec fn without_streams(
    rows: Seq<StreamInsert>,
    episodes: Seq<EpisodeInsert>,
    sid: Seq<char>,
) -> Seq<StreamInsert> {
    rows.filter(|x: StreamInsert| !episode_of_series(episodes, sid, x.episode_id@))
}

/// Reading progress of other series.
pub open spec fn without_progress(rows: Seq<ChapterProgress>, sid: Seq<char>) -> Seq<
    ChapterProgress,
> {
    rows.filter(|x: ChapterProgress| x.series_id@ != sid)
}

/// Preferences of other series.
pub open spec fn without_prefs(rows: Seq<SeriesPref>, sid: Seq<char>) -> Seq<SeriesPref> {
    rows.filter(other_prefs(sid))
}

proof fn lemma_filter_keeps_pairs<A>(
    s: Seq<A>,
    pred: spec_fn(A) -> bool,
    ok: spec_fn(A, A) -> bool,
)
    requires
        forall|i: int, j: int| 0 <= i < j < s.len() ==> ok(s[i], s[j]),
    ensures
        forall|i: int, j: int|
            0 <= i < j < s.filter(pred).len() ==> ok(s.filter(pred)[i], s.filter(pred)[j]),
    decreases s.len(),
{
    reveal(Seq::filter);
    if s.len() > 0 {
        let t = s.drop_last();
        lemma_filter_keeps_pairs(t, pred, ok);
        let ft = t.filter(pred);
        if pred(s.last()) {
            let f = ft.push(s.last());
            assert(s.filter(pred) == f);
            assert forall|i: int, j: int| 0 <= i < j < f.len() implies ok(f[i], f[j]) by {
                if j == f.len() - 1 {
                    assert(ft.contains(f[i]));
                    t.lemma_filter_contains_rev(pred, f[i]);
                    let k = choose|k: int| 0 <= k < t.len() && t[k] == f[i];
                    assert(s[k] == f[i]);
                } else {
                    assert(f[i] == ft[i] && f[j] == ft[j]);
                }
            }
        }
    }
}

fn drop_series_rows(rows: &Vec<SeriesInsert>, sid: &str) -> (r: Vec<SeriesInsert>)
    ensures
        r@ == without_series(rows@, sid@),
{
    let mut out: Vec<SeriesInsert> = Vec::new();
    let mut i: usize = 0;
    while i < rows.len()
        invariant
            i <= rows@.len(),
            out@ == without_series(rows@.subrange(0, i as int), sid@),
        decreases rows@.len() - i,
    {
        proof {
            reveal(Seq::filter);
            assert(rows@.subrange(0, i + 1).drop_last() =~= rows@.subrange(0, i as int));
        }
        if !str_eq(rows[i].id.as_str(), sid) {
            out.push(rows[i].copied());
        }
        i = i + 1;
    }
    assert(rows@.subrange(0, rows@.len() as int) =~= rows@);
    out
}

fn drop_links(rows: &Vec<SeriesSourceInsert>, sid: &str) -> (r: Vec<SeriesSourceInsert>)
    ensures
        r@ == without_links(rows@, sid@),
{
    let mut out: Vec<SeriesSourceInsert> = Vec::new();
    let mut i: usize = 0;
    while i < rows.len()
        invariant
            i <= rows@.len(),
            out@ == without_links(rows@.subrange(0, i as int), sid@),
        decreases rows@.len() - i,
    {
        proof {
            reveal(Seq::filter);
            assert(rows@.subrange(0, i + 1).drop_last() =~= rows@.subrange(0, i as int));
        }
        if !str_eq(rows[i].series_id.as_str(), sid) {
            out.push(rows[i].copied());
        }
        i = i + 1;
    }
    assert(rows@.subrange(0, rows@.len() as int) =~= rows@);
    out
}

fn drop_chapters(rows: &Vec<ChapterInsert>, sid: &str) -> (r: Vec<ChapterInsert>)
    ensures
        r@ == without_chapters(rows@, sid@),
{
    let mut out: Vec<ChapterInsert> = Vec::new();
    let mut i: usize = 0;
    while i < rows.len()
        invariant
            i <= rows@.len(),
            out@ == without_chapters(rows@.subrange(0, i as int), sid@),
        decreases rows@.len() - i,
    {
        proof {
            reveal(Seq::filter);
            assert(rows@.subrange(0, i + 1).drop_last() =~= rows@.subrange(0, i as int));
        }
        if !str_eq(rows[i].series_id.as_str(), sid) {
            out.push(rows[i].copied());
        }
        i = i + 1;
    }
    assert(rows@.subrange(0, rows@.len() as int) =~= rows@);
    out
}

fn drop_episodes(rows: &Vec<EpisodeInsert>, sid: &str) -> (r: Vec<EpisodeInsert>)
    ensures
        r@ == without_episodes(rows@, sid@),
{
    let mut out: Vec<EpisodeInsert> = Vec::new();
    let mut i: usize = 0;
    while i < rows.len()
        invariant
            i <= rows@.len(),
            out@ == without_episodes(rows@.subrange(0, i as int), sid@),
        decreases rows@.len() - i,
    {
        proof {
            reveal(Seq::filter);
            assert(rows@.subrange(0, i + 1).drop_last() =~= rows@.subrange(0, i as int));
        }
        if !str_eq(rows[i].series_id.as_str(), sid) {
            out.push(rows[i].copied());
        }
        i = i + 1;
    }
    assert(rows@.subrange(0, rows@.len() as int) =~= rows@);
    out
}

fn drop_progress(rows: &Vec<ChapterProgress>, sid: &str) -> (r: Vec<ChapterProgress>)
    ensures
        r@ == without_progress(rows@, sid@),
{
    let mut out: Vec<ChapterProgress> = Vec::new();
    let mut i: usize = 0;
    while i < rows.len()
        invariant
            i <= rows@.len(),
            out@ == without_progress(rows@.subrange(0, i as int), sid@),
        decreases rows@.len() - i,
    {
        proof {
            reveal(Seq::filter);
            assert(rows@.subrange(0, i + 1).drop_last() =~= rows@.subrange(0, i as int));
        }
        if !str_eq(rows[i].series_id.as_str(), sid) {
            out.push(rows[i].copied());
        }
        i = i + 1;
    }
    assert(rows@.subrange(0, rows@.len() as int) =~= rows@);
    out
}

fn drop_prefs(rows: &Vec<SeriesPref>, sid: &str) -> (r: Vec<SeriesPref>)
    ensures
        r@ == without_prefs(rows@, sid@),
{
    let mut out: Vec<SeriesPref> = Vec::new();
    let mut i: usize = 0;
    while i < rows.len()
        invariant
            i <= rows@.len(),
            out@ == without_prefs(rows@.subrange(0, i as int), sid@),
        decreases rows@.len() - i,
    {
        proof {
            reveal(Seq::filter);
            assert(rows@.subrange(0, i + 1).drop_last() =~= rows@.subrange(0, i as int));
        }
        if !str_eq(rows[i].series_id.as_str(), sid) {
            out.push(rows[i].copied());
        }
        i = i + 1;
    }
    assert(rows@.subrange(0, rows@.len() as int) =~= rows@);
    out
}

fn belongs_chapter(chapters: &Vec<ChapterInsert>, sid: &str, cid: &str) -> (r: bool)
    ensures
        r == chapter_of_series(chapters@, sid@, cid@),
{
    let mut i: usize = 0;
    while i < chapters.len()
        invariant
            i <= chapters@.len(),
            forall|k: int|
                0 <= k < i ==> !((#[trigger] chapters@[k]).series_id@ == sid@ && chapters@[k].id@
                    == cid@),
        decreases chapters@.len() - i,
    {
        if str_eq(chapters[i].series_id.as_str(), sid) && str_eq(chapters[i].id.as_str(), cid) {
            return true;
        }
        i = i + 1;
    }
    false
}

fn belongs_episode(episodes: &Vec<EpisodeInsert>, sid: &str, eid: &str) -> (r: bool)
    ensures
        r == episode_of_series(episodes@, sid@, eid@),
{
    let mut i: usize = 0;
    while i < episodes.len()
        invariant
            i <= episodes@.len(),
            forall|k: int|
                0 <= k < i ==> !((#[trigger] episodes@[k]).series_id@ == sid@ && episodes@[k].id@
                    == eid@),
        decreases episodes@.len() - i,
    {
        if str_eq(episodes[i].series_id.as_str(), sid) && str_eq(episodes[i].id.as_str(), eid) {
            return true;
        }
        i = i + 1;
    }
    false
}

fn drop_images(rows: &Vec<ChapterImageInsert>, chapters: &Vec<ChapterInsert>, sid: &str) -> (r: Vec<
    ChapterImageInsert,
>)
    ensures
        r@ == without_images(rows@, chapters@, sid@),
{
    let mut out: Vec<ChapterImageInsert> = Vec::new();
    let mut i: usize = 0;
    while i < rows.len()
        invariant
            i <= rows@.len(),
            out@ == without_images(rows@.subrange(0, i as int), chapters@, sid@),
        decreases rows@.len() - i,
    {
        proof {
            reveal(Seq::filter);
            assert(rows@.subrange(0, i + 1).drop_last() =~= rows@.subrange(0, i as int));
        }
        if !belongs_chapter(chapters, sid, rows[i].chapter_id.as_str()) {
            out.push(rows[i].copied());
        }
        i = i + 1;
    }
    assert(rows@.subrange(0, rows@.len() as int) =~= rows@);
    out
}

fn drop_streams(rows: &Vec<StreamInsert>, episodes: &Vec<EpisodeInsert>, sid: &str) -> (r: Vec<
    StreamInsert,
>)
    ensures
        r@ == without_streams(rows@, episodes@, sid@),
{
    let mut out: Vec<StreamInsert> = Vec::new();
    let mut i: usize = 0;
    while i < rows.len()
        invariant
            i <= rows@.len(),
            out@ == without_streams(rows@.subrange(0, i as int), episodes@, sid@),
        decreases rows@.len() - i,
    {
        proof {
            reveal(Seq::filter);
            assert(rows@.subrange(0, i + 1).drop_last() =~= rows@.subrange(0, i as int));
        }
        if !belongs_episode(episodes, sid, rows[i].episode_id.as_str()) {
            out.push(rows[i].copied());
        }
        i = i + 1;
    }
    assert(rows@.subrange(0, rows@.len() as int) =~= rows@);
    out
}

/// A well-formed store maps a provider's external id to at most one series.
pub proof fn lemma_one_mapping_per_pair(
    store: MemoryStore,
    source: Seq<char>,
    external: Seq<char>,
    i: int,
    j: int,
)
    requires
        store.wf(),
        0 <= i < store.links@.len(),
        0 <= j < store.links@.len(),
        link_is(store.links@[i], source, external),
        link_is(store.links@[j], source, external),
    ensures
        i == j,
        store.links@[i].series_id == store.links@[j].series_id,
{
    if i < j {
        assert(!link_is(store.links@[i], store.links@[j].source_id@, store.links@[j].external_id@));
    } else if j < i {
        assert(!link_is(store.links@[j], store.links@[i].source_id@, store.links@[i].external_id@));
    }
}

/// A second request for the same external id, made after the first one
/// created or found its series, gets the same series id: the first request's
/// mapping is the one it finds.
pub proof fn lemma_second_request_reuses(
    store: MemoryStore,
    source: Seq<char>,
    external: Seq<char>,
    first: String,
    second: String,
)
    requires
        store.wf(),
        exists|i: int|
            0 <= i < store.links@.len() && link_is(store.links@[i], source, external)
                && store.links@[i].series_id == first,
        (exists|i: int|
            0 <= i < store.links@.len() && link_is(store.links@[i], source, external)
                && store.links@[i].series_id == second) || forall|i: int|
            0 <= i < store.links@.len() ==> !link_is(#[trigger] store.links@[i], source, external),
    ensures
        second == first,
{
    let a = choose|i: int|
        0 <= i < store.links@.len() && link_is(store.links@[i], source, external)
            && store.links@[i].series_id == first;
    assert(link_is(store.links@[a], source, external));
    let b = choose|i: int|
        0 <= i < store.links@.len() && link_is(store.links@[i], source, external)
            && store.links@[i].series_id == second;
    lemma_one_mapping_per_pair(store, source, external, a, b);
}

/// After a chapter is upserted, its conflict key has exactly one row, equal
/// to what was upserted last; an earlier upsert with the same key left no row
/// behind.
pub proof fn lemma_upsert_twice_one_row(store: MemoryStore, first: ChapterInsert, second: ChapterInsert)
    requires
        store.wf(),
        same_chapter_key(first, second),
        forall|i: int|
            0 <= i < store.chapters@.len() && same_chapter_key(store.chapters@[i], second)
                ==> #[trigger] store.chapters@[i] == second,
        exists|i: int| 0 <= i < store.chapters@.len() && store.chapters@[i] == second,
    ensures
        exists|i: int|
            0 <= i < store.chapters@.len() && store.chapters@[i] == second && forall|j: int|
                0 <= j < store.chapters@.len() && j != i ==> !same_chapter_key(
                    #[trigger] store.chapters@[j],
                    first,
                ),
{
    let i = choose|i: int| 0 <= i < store.chapters@.len() && store.chapters@[i] == second;
    assert forall|j: int| 0 <= j < store.chapters@.len() && j != i implies !same_chapter_key(
        #[trigger] store.chapters@[j],
        first,
    ) by {
        if same_chapter_key(store.chapters@[j], first) {
            if j < i {
                assert(!same_chapter_key(store.chapters@[j], store.chapters@[i]));
            } else {
                assert(!same_chapter_key(store.chapters@[i], store.chapters@[j]));
            }
        }
    }
}

/// After a download path is set, the series' preference holds it: a
/// non-empty path reads back as itself, the empty path or none as no path.
pub proof fn lemma_download_path_set_then_get(
    store: MemoryStore,
    series_id: Seq<char>,
    path: Option<Seq<char>>,
)
    requires
        store.wf(),
        exists|i: int|
            0 <= i < store.prefs@.len() && store.prefs@[i].series_id@ == series_id && opt_text(
                store.prefs@[i].download_path,
            ) == stored_path_spec(path),
    ensures
        forall|j: int|
            0 <= j < store.prefs@.len() && (#[trigger] store.prefs@[j]).series_id@ == series_id
                ==> read_back_spec(opt_text(store.prefs@[j].download_path)) == match path {
                Some(p) => read_back_spec(p),
                None => None,
            },
{
    let i = choose|i: int|
        0 <= i < store.prefs@.len() && store.prefs@[i].series_id@ == series_id && opt_text(
            store.prefs@[i].download_path,
        ) == stored_path_spec(path);
    assert forall|j: int|
        0 <= j < store.prefs@.len() && (#[trigger] store.prefs@[j]).series_id@ == series_id implies j
        == i by {
        if j < i {
            assert(store.prefs@[j].series_id@ != store.prefs@[i].series_id@);
        } else if j > i {
            assert(store.prefs@[i].series_id@ != store.prefs@[j].series_id@);
        }
    }
}

/// After a series is deleted, no mapping, chapter, episode, progress or
/// preference row names it, and no image or stream belongs to one of its
/// chapters or episodes.
pub proof fn lemma_delete_leaves_no_reference(
    before: MemoryStore,
    after: MemoryStore,
    series_id: Seq<char>,
)
    requires
        after.links@ == without_links(before.links@, series_id),
        after.chapters@ == without_chapters(before.chapters@, series_id),
        after.episodes@ == without_episodes(before.episodes@, series_id),
        after.images@ == without_images(before.images@, before.chapters@, series_id),
        after.streams@ == without_streams(before.streams@, before.episodes@, series_id),
        after.progress@ == without_progress(before.progress@, series_id),
        after.prefs@ == without_prefs(before.prefs@, series_id),
    ensures
        forall|i: int| 0 <= i < after.links@.len() ==> (#[trigger] after.links@[i]).series_id@ != series_id,
        forall|i: int|
            0 <= i < after.chapters@.len() ==> (#[trigger] after.chapters@[i]).series_id@ != series_id,
        forall|i: int|
            0 <= i < after.episodes@.len() ==> (#[trigger] after.episodes@[i]).series_id@ != series_id,
        forall|i: int|
            0 <= i < after.progress@.len() ==> (#[trigger] after.progress@[i]).series_id@ != series_id,
        forall|i: int| 0 <= i < after.prefs@.len() ==> (#[trigger] after.prefs@[i]).series_id@ != series_id,
        forall|i: int|
            0 <= i < after.images@.len() ==> !chapter_of_series(
                before.chapters@,
                series_id,
                (#[trigger] after.images@[i]).chapter_id@,
            ),
        forall|i: int|
            0 <= i < after.streams@.len() ==> !episode_of_series(
                before.episodes@,
                series_id,
                (#[trigger] after.streams@[i]).episode_id@,
            ),
{
    before.links@.filter_lemma(other_links(series_id));
    before.chapters@.filter_lemma(other_chapters(series_id));
    before.episodes@.filter_lemma(|x: EpisodeInsert| x.series_id@ != series_id);
    before.progress@.filter_lemma(|x: ChapterProgress| x.series_id@ != series_id);
    before.prefs@.filter_lemma(other_prefs(series_id));
    before.images@.filter_lemma(
        |x: ChapterImageInsert| !chapter_of_series(before.chapters@, series_id, x.chapter_id@),
    );
    before.streams@.filter_lemma(
        |x: StreamInsert| !episode_of_series(before.episodes@, series_id, x.episode_id@),
    );
}

/// The text of an optional stored value.
pub open spec fn opt_text(o: Option<String>) -> Seq<char> {
    match o {
        Some(s) => s@,
        None => Seq::empty(),
    }
}

} // verus!

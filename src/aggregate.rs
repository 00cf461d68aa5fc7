use vstd::prelude::*;

use crate::flow::{expiry_after, expiry_spec, force_kind, forced_spec, tag_with_source};
use crate::keys::{search_key_for_query, search_key_spec};
use crate::cache::{lookup, read_spec, CacheTable};
use crate::flow::{
    cached_page_urls, chapter_ids, json_of_strings, media_stub, page_urls_payload, strings_of_json,
    strings_view,
};
use crate::keys::{pages_cache_key, pages_key_spec};
use crate::mapping::streams_from_assets;
use crate::memstore::has_stream;
use crate::memstore::{
    chapter_kept, episode_kept, has_chapter_key, has_episode_key, link_is, mapped, MemoryStore,
};
use crate::model::{Asset, Media, MediaType, Unit, UnitKind};
use crate::text::normalize_spec;

verus! {

/// What one provider's part of a search does.
#[derive(Debug)]
pub enum SourceSearch {
    /// Serve these cached results; no plugin is called.
    Serve { key: String, list: Vec<Media> },
    /// Call the plugin with `query`, then cache its results under `key`
    /// until `expires_at`.
    Fetch { key: String, query: String, expires_at: i64 },
}

/// Plans one provider's part of a search.  The cache key is built from the
/// normalized query; a cached result is served unless a refresh is asked
/// for, and otherwise the plugin gets the query as the user typed it and its
/// answer is cached for `ttl` seconds.
pub fn plan_source_search(
    source: &str,
    kind: &MediaType,
    raw_query: &str,
    refresh: bool,
    cached: Option<Vec<Media>>,
    now: i64,
    ttl: i64,
) -> (r: SourceSearch)
    ensures
        match r {
            SourceSearch::Serve { key, list } => !refresh && cached == Some(list) && key@
                == search_key_spec(source@, *kind, normalize_spec(raw_query@)),
            SourceSearch::Fetch { key, query, expires_at } => (refresh || cached is None) && key@
                == search_key_spec(source@, *kind, normalize_spec(raw_query@)) && query@
                == raw_query@ && expires_at == expiry_spec(now, ttl),
        },
{
    let key = search_key_for_query(source, kind, raw_query);
    if !refresh {
        if let Some(list) = cached {
            return SourceSearch::Serve { key, list };
        }
    }
    SourceSearch::Fetch {
        key,
        query: String::from_str(raw_query),
        expires_at: expiry_after(now, ttl),
    }
}

/// Finishes one provider's part of a search: the results, kind-forced and
/// tagged with the provider.  With `persist`, every result's external id is
/// mapped to exactly one series afterwards, and a mapping that existed keeps
/// its series; without it the store is not touched.
pub fn finish_source_search(
    store: &mut MemoryStore,
    source: &String,
    kind: &MediaType,
    list: Vec<Media>,
    persist: bool,
) -> (r: Vec<(String, Media)>)
    requires
        old(store).wf(),
    ensures
        final(store).wf(),
        r@.len() == list@.len(),
        forall|i: int|
            0 <= i < r@.len() ==> (#[trigger] r@[i]) == (*source, forced_spec(*kind, list@[i])),
        persist ==> forall|i: int|
            0 <= i < list@.len() ==> mapped(
                final(store).links@,
                source@,
                (#[trigger] list@[i]).id@,
            ),
        persist ==> forall|i: int, a: int, b: int|
            0 <= i < list@.len() && 0 <= a < final(store).links@.len() && 0 <= b
                < final(store).links@.len() && link_is(
                #[trigger] final(store).links@[a],
                source@,
                (#[trigger] list@[i]).id@,
            ) && link_is(#[trigger] final(store).links@[b], source@, list@[i].id@) ==> a == b,
        persist ==> forall|j: int|
            0 <= j < old(store).links@.len() ==> final(store).links@.contains(
                #[trigger] old(store).links@[j],
            ),
        !persist ==> *final(store) == *old(store),
{
    let forced = force_kind(kind, list);
    if persist {
        let mut i: usize = 0;
        while i < forced.len()
            invariant
                store.wf(),
                i <= forced@.len(),
                forced@.len() == list@.len(),
                forall|k: int| 0 <= k < forced@.len() ==> (#[trigger] forced@[k]).id == list@[k].id,
                forall|k: int|
                    0 <= k < i ==> mapped(store.links@, source@, (#[trigger] list@[k]).id@),
                forall|j: int|
                    0 <= j < old(store).links@.len() ==> store.links@.contains(
                        #[trigger] old(store).links@[j],
                    ),
            decreases forced@.len() - i,
        {
            let ghost before = store.links@;
            let m = &forced[i];
            assert(m.id == list@[i as int].id);
            store.get_or_create_series_id(source.as_str(), m.id.as_str(), m);
            proof {
                assert forall|k: int| 0 <= k < i implies mapped(
                    store.links@,
                    source@,
                    (#[trigger] list@[k]).id@,
                ) by {
                    let w = choose|w: int|
                        0 <= w < before.len() && link_is(before[w], source@, list@[k].id@);
                    assert(store.links@.contains(before[w]));
                }
                assert forall|j: int| 0 <= j < old(store).links@.len() implies store.links@.contains(
                    #[trigger] old(store).links@[j],
                ) by {
                    assert(before.contains(old(store).links@[j]));
                    let w = choose|w: int| 0 <= w < before.len() && before[w] == old(store).links@[j];
                    assert(store.links@.contains(before[w]));
                }
            }
            i = i + 1;
        }
    }
    proof {
        assert forall|i: int, a: int, b: int|
            0 <= i < list@.len() && 0 <= a < store.links@.len() && 0 <= b < store.links@.len()
                && link_is(#[trigger] store.links@[a], source@, (#[trigger] list@[i]).id@)
                && link_is(#[trigger] store.links@[b], source@, list@[i].id@) implies a == b by {
            crate::memstore::lemma_one_mapping_per_pair(*store, source@, list@[i].id@, a, b);
        }
    }
    tag_with_source(source, &forced)
}

/// Records a first-hit answer of units for a provider's work: the work gets
/// (or keeps) its series, whose stored metadata a known work keeps as it is,
/// and every unit of the wanted kind (chapters, or else episodes) has its row
/// afterwards; rows that were there keep their ids.  Returns the series id.
pub fn record_units(
    store: &mut MemoryStore,
    source: &str,
    external_id: &str,
    kind: MediaType,
    units: &Vec<Unit>,
    chapters: bool,
) -> (r: String)
    requires
        old(store).wf(),
    ensures
        final(store).wf(),
        exists|i: int|
            0 <= i < final(store).links@.len() && link_is(
                final(store).links@[i],
                source@,
                external_id@,
            ) && final(store).links@[i].series_id == r,
        mapped(old(store).links@, source@, external_id@) ==> final(store).series
            == old(store).series,
        chapters ==> forall|k: int|
            0 <= k < units@.len() && (#[trigger] units@[k]).kind is Chapter ==> has_chapter_key(
                final(store).chapters@,
                r@,
                source@,
                units@[k].id@,
            ),
        !chapters ==> forall|k: int|
            0 <= k < units@.len() && (#[trigger] units@[k]).kind is Episode ==> has_episode_key(
                final(store).episodes@,
                r@,
                source@,
                units@[k].id@,
            ),
        forall|j: int|
            0 <= j < old(store).chapters@.len() ==> chapter_kept(
                final(store).chapters@,
                #[trigger] old(store).chapters@[j],
            ),
        forall|j: int|
            0 <= j < old(store).episodes@.len() ==> episode_kept(
                final(store).episodes@,
                #[trigger] old(store).episodes@[j],
            ),
{
    let stub = media_stub(external_id, kind);
    let sid = store.get_or_create_series_id(source, external_id, &stub);
    let ghost links = store.links@;
    let ghost series = store.series;
    let mut i: usize = 0;
    while i < units.len()
        invariant
            store.wf(),
            i <= units@.len(),
            store.links@ == links,
            store.series == series,
            exists|w: int|
                0 <= w < links.len() && link_is(links[w], source@, external_id@)
                    && links[w].series_id == sid,
            chapters ==> forall|k: int|
                0 <= k < i && (#[trigger] units@[k]).kind is Chapter ==> has_chapter_key(
                    store.chapters@,
                    sid@,
                    source@,
                    units@[k].id@,
                ),
            !chapters ==> forall|k: int|
                0 <= k < i && (#[trigger] units@[k]).kind is Episode ==> has_episode_key(
                    store.episodes@,
                    sid@,
                    source@,
                    units@[k].id@,
                ),
            forall|j: int|
                0 <= j < old(store).chapters@.len() ==> chapter_kept(
                    store.chapters@,
                    #[trigger] old(store).chapters@[j],
                ),
            forall|j: int|
                0 <= j < old(store).episodes@.len() ==> episode_kept(
                    store.episodes@,
                    #[trigger] old(store).episodes@[j],
                ),
        decreases units@.len() - i,
    {
        let u = &units[i];
        let wanted = match u.kind {
            UnitKind::Chapter => chapters,
            UnitKind::Episode => !chapters,
            _ => false,
        };
        if wanted {
            let ghost ch_before = store.chapters@;
            let ghost ep_before = store.episodes@;
            if chapters {
                store.record_chapter(&sid, source, u);
            } else {
                store.record_episode(&sid, source, u);
            }
            proof {
                assert forall|j: int| 0 <= j < old(store).chapters@.len() implies chapter_kept(
                    store.chapters@,
                    #[trigger] old(store).chapters@[j],
                ) by {
                    let o = old(store).chapters@[j];
                    let n = choose|n: int|
                        0 <= n < ch_before.len() && crate::memstore::same_chapter_key(ch_before[n], o)
                            && ch_before[n].id == o.id;
                    assert(chapter_kept(store.chapters@, ch_before[n]));
                }
                assert forall|j: int| 0 <= j < old(store).episodes@.len() implies episode_kept(
                    store.episodes@,
                    #[trigger] old(store).episodes@[j],
                ) by {
                    let o = old(store).episodes@[j];
                    let n = choose|n: int|
                        0 <= n < ep_before.len() && crate::memstore::same_episode_key(ep_before[n], o)
                            && ep_before[n].id == o.id;
                    assert(episode_kept(store.episodes@, ep_before[n]));
                }
                if chapters {
                    assert forall|k: int|
                        0 <= k < i + 1 && (#[trigger] units@[k]).kind is Chapter implies has_chapter_key(
                        store.chapters@,
                        sid@,
                        source@,
                        units@[k].id@,
                    ) by {
                        if k < i {
                            let n = choose|n: int|
                                0 <= n < ch_before.len() && crate::memstore::chapter_key_is(
                                    ch_before[n],
                                    sid@,
                                    source@,
                                    units@[k].id@,
                                );
                            assert(chapter_kept(store.chapters@, ch_before[n]));
                        }
                    }
                } else {
                    assert forall|k: int|
                        0 <= k < i + 1 && (#[trigger] units@[k]).kind is Episode implies has_episode_key(
                        store.episodes@,
                        sid@,
                        source@,
                        units@[k].id@,
                    ) by {
                        if k < i {
                            let n = choose|n: int|
                                0 <= n < ep_before.len() && crate::memstore::episode_key_is(
                                    ep_before[n],
                                    sid@,
                                    source@,
                                    units@[k].id@,
                                );
                            assert(episode_kept(store.episodes@, ep_before[n]));
                        }
                    }
                }
            }
        }
        i = i + 1;
    }
    sid
}

/// What a request for a chapter's pages does.
#[derive(Debug)]
pub enum PagesPlan {
    /// Serve these cached page URLs; no plugin is called.
    Cached(Vec<String>),
    /// Ask the plugins for the pages of `fetch_id`, then cache them under `key`.
    Fetch { key: String, fetch_id: String },
}

/// The id that keys a chapter's cached pages: its canonical id when the
/// store knows the chapter, else the id as requested.
pub open spec fn pages_cache_id(requested: Seq<char>, known: Option<(String, String, String)>) -> Seq<
    char,
> {
    match known {
        Some((canonical, _, _)) => canonical@,
        None => requested,
    }
}

/// The id the plugins are asked with: the chapter's external id when the
/// store knows it, else the id as requested.
pub open spec fn pages_fetch_id(requested: Seq<char>, known: Option<(String, String, String)>) -> Seq<
    char,
> {
    match known {
        Some((_, _, external)) => external@,
        None => requested,
    }
}

/// Plans a request for a chapter's pages, given the chapter as the store
/// resolved it, `(canonical id, source, external id)`.  The cache is keyed by
/// the canonical id and read unless a refresh is asked for; a cached list is
/// served, and otherwise the plugins are asked with the external id.
pub fn plan_chapter_pages(
    requested: &str,
    known: Option<(String, String, String)>,
    refresh: bool,
    cache: &CacheTable,
    now: i64,
) -> (r: PagesPlan)
    ensures
        match r {
            PagesPlan::Cached(v) => !refresh && exists|p: Seq<char>|
                read_spec(lookup(cache.entries@, pages_key_spec(pages_cache_id(requested@, known))), now)
                    == Some(p) && strings_of_json(p) == Some(strings_view(v@)),
            PagesPlan::Fetch { key, fetch_id } => key@ == pages_key_spec(
                pages_cache_id(requested@, known),
            ) && fetch_id@ == pages_fetch_id(requested@, known),
        },
        forall|x: Seq<Seq<char>>|
            !refresh && read_spec(
                lookup(cache.entries@, pages_key_spec(pages_cache_id(requested@, known))),
                now,
            ) == Some(#[trigger] json_of_strings(x)) ==> (r matches PagesPlan::Cached(v)
                && strings_view(v@) == x),
{
    let (cache_id, fetch_id) = chapter_ids(requested, known);
    let key = pages_cache_key(cache_id.as_str());
    let payload = if refresh {
        None
    } else {
        cache.get_cache(key.as_str(), now)
    };
    match cached_page_urls(refresh, payload) {
        Some(urls) => PagesPlan::Cached(urls),
        None => PagesPlan::Fetch { key, fetch_id },
    }
}

/// Caches a chapter's page list under `key` for `ttl` seconds from `now`.
pub fn finish_chapter_pages(cache: &mut CacheTable, key: &str, urls: &Vec<String>, now: i64, ttl: i64)
    ensures
        lookup(final(cache).entries@, key@) == Some(
            (json_of_strings(strings_view(urls@)), expiry_spec(now, ttl) as i64),
        ),
        forall|k: Seq<char>|
            k != key@ ==> #[trigger] lookup(final(cache).entries@, k) == lookup(
                old(cache).entries@,
                k,
            ),
{
    let payload = page_urls_payload(urls);
    let expires = expiry_after(now, ttl);
    cache.put_cache(key, payload.as_str(), expires);
}

/// Records the streams a provider answered for an episode, when the store
/// knows the episode by that provider and external id: every stream's URL is
/// stored for the episode afterwards.  Returns the episode's id, or `None`
/// (and leaves the store as it was) when the episode is unknown.
pub fn record_streams(
    store: &mut MemoryStore,
    source: &str,
    external_episode_id: &str,
    vids: &Vec<Asset>,
) -> (r: Option<String>)
    requires
        old(store).wf(),
    ensures
        final(store).wf(),
        match r {
            Some(eid) => (exists|j: int|
                0 <= j < old(store).episodes@.len() && old(store).episodes@[j].source_id@ == source@
                    && old(store).episodes@[j].external_id@ == external_episode_id@
                    && old(store).episodes@[j].id == eid) && forall|k: int|
                0 <= k < vids@.len() ==> has_stream(
                    final(store).streams@,
                    eid@,
                    (#[trigger] vids@[k]).url@,
                ),
            None => *final(store) == *old(store) && forall|j: int|
                0 <= j < old(store).episodes@.len() ==> !((#[trigger] old(store).episodes@[j]).source_id@
                    == source@ && old(store).episodes@[j].external_id@ == external_episode_id@),
        },
{
    match store.find_episode_id_by_source_external(source, external_episode_id) {
        Some(eid) => {
            let rows = streams_from_assets(&eid, vids);
            store.upsert_streams(eid.as_str(), &rows);
            assert forall|k: int| 0 <= k < vids@.len() implies has_stream(
                store.streams@,
                eid@,
                (#[trigger] vids@[k]).url@,
            ) by {
                assert(rows@[k].url == vids@[k].url);
            }
            Some(eid)
        },
        None => None,
    }
}

} // verus!

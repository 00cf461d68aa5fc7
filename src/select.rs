use vstd::prelude::*;

use crate::model::{Asset, AssetKind, Media, Unit, UnitKind};
use crate::errors::ReplyWait;
use crate::records::SeriesMetadataUpdate;
use crate::text::str_eq;

verus! {

/// The units of a given kind, as a first-hit fetch keeps them.
pub open spec fn units_of_kind(units: Seq<Unit>, chapters: bool) -> Seq<Unit> {
    units.filter(
        |u: Unit|
            if chapters {
                u.kind is Chapter
            } else {
                u.kind is Episode
            },
    )
}

/// Page and image assets, the ones a chapter's page list is made of.
pub open spec fn is_page(a: Asset) -> bool {
    a.kind is Page || a.kind is Image
}

/// The assets that show a chapter's pages.
pub open spec fn page_assets(assets: Seq<Asset>) -> Seq<Asset> {
    assets.filter(|a: Asset| is_page(a))
}

/// The assets that play an episode.
pub open spec fn video_assets(assets: Seq<Asset>) -> Seq<Asset> {
    assets.filter(|a: Asset| a.kind is Video)
}

fn keep_units(units: &Vec<Unit>, chapters: bool) -> (r: Vec<Unit>)
    ensures
        r@ == units_of_kind(units@, chapters),
{
    let mut out: Vec<Unit> = Vec::new();
    let mut i: usize = 0;
    while i < units.len()
        invariant
            i <= units@.len(),
            out@ == units_of_kind(units@.subrange(0, i as int), chapters),
        decreases units@.len() - i,
    {
        let keep = match &units[i].kind {
            UnitKind::Chapter => chapters,
            UnitKind::Episode => !chapters,
            _ => false,
        };
        proof {
            reveal(Seq::filter);
            assert(units@.subrange(0, i + 1).drop_last() =~= units@.subrange(0, i as int));
        }
        if keep {
            out.push(units[i].copied());
        }
        i = i + 1;
    }
    assert(units@.subrange(0, units@.len() as int) =~= units@);
    out
}

/// The chapters among a provider's units, in order.
pub fn chapters_of(units: &Vec<Unit>) -> (r: Vec<Unit>)
    ensures
        r@ == units_of_kind(units@, true),
{
    keep_units(units, true)
}

/// The episodes among a provider's units, in order.
pub fn episodes_of(units: &Vec<Unit>) -> (r: Vec<Unit>)
    ensures
        r@ == units_of_kind(units@, false),
{
    keep_units(units, false)
}

/// The URLs of the page and image assets, in order.
pub fn page_urls_of(assets: &Vec<Asset>) -> (r: Vec<String>)
    ensures
        r@ == page_assets(assets@).map_values(|a: Asset| a.url),
{
    let mut out: Vec<String> = Vec::new();
    let mut i: usize = 0;
    while i < assets.len()
        invariant
            i <= assets@.len(),
            out@ == page_assets(assets@.subrange(0, i as int)).map_values(|a: Asset| a.url),
        decreases assets@.len() - i,
    {
        let keep = match &assets[i].kind {
            AssetKind::Page => true,
            AssetKind::Image => true,
            _ => false,
        };
        proof {
            reveal(Seq::filter);
            assert(assets@.subrange(0, i + 1).drop_last() =~= assets@.subrange(0, i as int));
        }
        if keep {
            let ghost before = page_assets(assets@.subrange(0, i as int));
            out.push(assets[i].url.clone());
            assert(before.push(assets@[i as int]).map_values(|a: Asset| a.url) =~= before.map_values(
                |a: Asset| a.url,
            ).push(assets@[i as int].url));
        }
        i = i + 1;
    }
    assert(assets@.subrange(0, assets@.len() as int) =~= assets@);
    out
}

/// The video assets, in order.
pub fn videos_of(assets: &Vec<Asset>) -> (r: Vec<Asset>)
    ensures
        r@ == video_assets(assets@),
{
    let mut out: Vec<Asset> = Vec::new();
    let mut i: usize = 0;
    while i < assets.len()
        invariant
            i <= assets@.len(),
            out@ == video_assets(assets@.subrange(0, i as int)),
        decreases assets@.len() - i,
    {
        let keep = match &assets[i].kind {
            AssetKind::Video => true,
            _ => false,
        };
        proof {
            reveal(Seq::filter);
            assert(assets@.subrange(0, i + 1).drop_last() =~= assets@.subrange(0, i as int));
        }
        if keep {
            out.push(assets[i].copied());
        }
        i = i + 1;
    }
    assert(assets@.subrange(0, assets@.len() as int) =~= assets@);
    out
}

/// Every provider's results, each paired with its provider, providers in the
/// order given.
pub open spec fn flatten_spec(results: Seq<(String, Seq<Media>)>) -> Seq<(String, Media)>
    decreases results.len(),
{
    if results.len() == 0 {
        Seq::empty()
    } else {
        let last = results.last();
        flatten_spec(results.drop_last()) + last.1.map_values(|m: Media| (last.0, m))
    }
}

/// The results of a fan-out, flattened into one list tagged by provider.
pub fn flatten_results(results: Vec<(String, Vec<Media>)>) -> (r: Vec<(String, Media)>)
    ensures
        r@ == flatten_spec(results@.map_values(|p: (String, Vec<Media>)| (p.0, p.1@))),
{
    let ghost rv = results@.map_values(|p: (String, Vec<Media>)| (p.0, p.1@));
    let mut out: Vec<(String, Media)> = Vec::new();
    let mut i: usize = 0;
    while i < results.len()
        invariant
            rv == results@.map_values(|p: (String, Vec<Media>)| (p.0, p.1@)),
            i <= results@.len(),
            out@ == flatten_spec(rv.subrange(0, i as int)),
        decreases results@.len() - i,
    {
        let name = &results[i].0;
        let list = &results[i].1;
        let ghost base = out@;
        let mut j: usize = 0;
        while j < list.len()
            invariant
                j <= list@.len(),
                out@ == base + list@.subrange(0, j as int).map_values(|m: Media| (*name, m)),
            decreases list@.len() - j,
        {
            out.push((name.clone(), list[j].copied()));
            assert(list@.subrange(0, j + 1).map_values(|m: Media| (*name, m)) =~= list@.subrange(
                0,
                j as int,
            ).map_values(|m: Media| (*name, m)).push((*name, list@[j as int])));
            j = j + 1;
        }
        assert(list@.subrange(0, list@.len() as int) =~= list@);
        assert(rv.subrange(0, i + 1).drop_last() =~= rv.subrange(0, i as int));
        assert(rv.subrange(0, i + 1).last() == (*name, list@));
        i = i + 1;
    }
    assert(rv.subrange(0, rv.len() as int) =~= rv);
    out
}

/// A placeholder entry that a provider returns in place of an error: its id
/// is `error`, or its title starts with `HTTP Error:`.
pub open spec fn is_error_entry(m: Media) -> bool {
    m.id@ == "error"@ || ("HTTP Error:"@.len() <= m.title@.len() && m.title@.subrange(
        0,
        "HTTP Error:"@.len() as int,
    ) == "HTTP Error:"@)
}

/// The provider's results without its error placeholders.
pub open spec fn real_entries(list: Seq<Media>) -> Seq<Media> {
    list.filter(|m: Media| !is_error_entry(m))
}

fn error_entry(m: &Media) -> (r: bool)
    ensures
        r == is_error_entry(*m),
{
    if str_eq(m.id.as_str(), "error") {
        return true;
    }
    let tag = "HTTP Error:";
    let n = tag.unicode_len();
    let t = m.title.as_str();
    n <= t.unicode_len() && str_eq(t.substring_char(0, n), tag)
}

/// Drops the error placeholders from a provider's search results, in order.
pub fn drop_error_entries(list: &Vec<Media>) -> (r: Vec<Media>)
    ensures
        r@ == real_entries(list@),
{
    let mut out: Vec<Media> = Vec::new();
    let mut i: usize = 0;
    while i < list.len()
        invariant
            i <= list@.len(),
            out@ == real_entries(list@.subrange(0, i as int)),
        decreases list@.len() - i,
    {
        proof {
            reveal(Seq::filter);
            assert(list@.subrange(0, i + 1).drop_last() =~= list@.subrange(0, i as int));
        }
        if !error_entry(&list[i]) {
            out.push(list[i].copied());
        }
        i = i + 1;
    }
    assert(list@.subrange(0, list@.len() as int) =~= list@);
    out
}

/// The metadata update that a refresh takes from fresh search results: the
/// first result of the series' own source with its external id gives title,
/// description and cover; the status is left alone.  `None` when no result
/// matches.
pub fn refresh_update_for(results: &Vec<(String, Media)>, source_id: &str, external_id: &str) -> (r:
    Option<SeriesMetadataUpdate>)
    ensures
        match r {
            Some(u) => exists|i: int|
                0 <= i < results@.len() && results@[i].0@ == source_id@ && results@[i].1.id@
                    == external_id@ && u.title == Some(results@[i].1.title) && u.description == Some(
                    results@[i].1.description,
                ) && u.cover_url == Some(results@[i].1.cover_url) && u.status.is_none() && forall|k: int|
                    0 <= k < i ==> !((#[trigger] results@[k]).0@ == source_id@ && results@[k].1.id@
                        == external_id@),
            None => forall|i: int|
                0 <= i < results@.len() ==> !((#[trigger] results@[i]).0@ == source_id@
                    && results@[i].1.id@ == external_id@),
        },
{
    let mut i: usize = 0;
    while i < results.len()
        invariant
            i <= results@.len(),
            forall|k: int|
                0 <= k < i ==> !((#[trigger] results@[k]).0@ == source_id@ && results@[k].1.id@
                    == external_id@),
        decreases results@.len() - i,
    {
        let (src, m) = &results[i];
        if str_eq(src.as_str(), source_id) && str_eq(m.id.as_str(), external_id) {
            let c = m.copied();
            return Some(
                SeriesMetadataUpdate {
                    title: Some(c.title),
                    description: Some(c.description),
                    cover_url: Some(c.cover_url),
                    status: None,
                },
            );
        }
        i = i + 1;
    }
    None
}

/// The providers that answered a fan-out with a result, in order, with
/// their results; failed, dropped and timed-out providers are left out.
pub open spec fn answered(replies: Seq<(String, ReplyWait<Vec<Media>>)>) -> Seq<(String, Seq<Media>)>
    decreases replies.len(),
{
    if replies.len() == 0 {
        Seq::empty()
    } else {
        let rest = answered(replies.drop_last());
        match replies.last().1 {
            ReplyWait::Replied(Ok(v)) => rest.push((replies.last().0, v@)),
            _ => rest,
        }
    }
}

/// A provider answers a fan-out with a result.
pub open spec fn answered_ok(wait: ReplyWait<Vec<Media>>) -> bool {
    wait matches ReplyWait::Replied(Ok(_))
}

proof fn lemma_answered_names(replies: Seq<(String, ReplyWait<Vec<Media>>)>, p: String)
    requires
        forall|k: int|
            0 <= k < replies.len() && (#[trigger] replies[k]).0 == p ==> !answered_ok(replies[k].1),
    ensures
        forall|j: int| 0 <= j < answered(replies).len() ==> (#[trigger] answered(replies)[j]).0 != p,
    decreases replies.len(),
{
    if replies.len() > 0 {
        let t = replies.drop_last();
        assert forall|k: int| 0 <= k < t.len() && (#[trigger] t[k]).0 == p implies !answered_ok(
            t[k].1,
        ) by {
            assert(t[k] == replies[k]);
        }
        lemma_answered_names(t, p);
        let l = replies.last();
        assert(replies[replies.len() - 1] == l);
        match l.1 {
            ReplyWait::Replied(Ok(v)) => {
                assert(answered_ok(l.1));
                assert(l.0 != p);
                let a = answered(t).push((l.0, v@));
                assert(answered(replies) == a);
                assert forall|j: int| 0 <= j < a.len() implies (#[trigger] a[j]).0 != p by {
                    if j < answered(t).len() {
                        assert(a[j] == answered(t)[j]);
                    }
                }
            },
            _ => {
                assert(answered(replies) == answered(t));
            },
        }
    }
}

proof fn lemma_flatten_names(results: Seq<(String, Seq<Media>)>, p: String)
    requires
        forall|j: int| 0 <= j < results.len() ==> (#[trigger] results[j]).0 != p,
    ensures
        forall|i: int|
            0 <= i < flatten_spec(results).len() ==> (#[trigger] flatten_spec(results)[i]).0 != p,
    decreases results.len(),
{
    if results.len() > 0 {
        let t = results.drop_last();
        assert forall|j: int| 0 <= j < t.len() implies (#[trigger] t[j]).0 != p by {
            assert(t[j] == results[j]);
        }
        lemma_flatten_names(t, p);
        let last = results.last();
        let tail = last.1.map_values(|m: Media| (last.0, m));
        assert forall|i: int| 0 <= i < flatten_spec(results).len() implies (
        #[trigger] flatten_spec(results)[i]).0 != p by {
            if i >= flatten_spec(t).len() {
                assert(flatten_spec(results)[i] == tail[i - flatten_spec(t).len()]);
            } else {
                assert(flatten_spec(results)[i] == flatten_spec(t)[i]);
            }
        }
    }
}

/// A provider that did not answer a fan-out with a result (it timed out,
/// failed or went away) contributes no pair to the gathered results.
pub proof fn lemma_unanswered_provider_absent(replies: Seq<(String, ReplyWait<Vec<Media>>)>, p: String)
    requires
        forall|k: int|
            0 <= k < replies.len() && (#[trigger] replies[k]).0 == p ==> !answered_ok(replies[k].1),
    ensures
        forall|i: int|
            0 <= i < flatten_spec(answered(replies)).len() ==> (#[trigger] flatten_spec(
                answered(replies),
            )[i]).0 != p,
{
    lemma_answered_names(replies, p);
    lemma_flatten_names(answered(replies), p);
}

/// Gathers a search fan-out: every result of every provider that answered,
/// tagged with the provider; a provider that failed or timed out only drops
/// out, it never fails the whole search.
pub fn gather_search_results(replies: Vec<(String, ReplyWait<Vec<Media>>)>) -> (r: Vec<
    (String, Media),
>)
    ensures
        r@ == flatten_spec(answered(replies@)),
{
    let ghost orig = replies@;
    let n = replies.len();
    let mut rest = replies;
    let mut ok: Vec<(String, Vec<Media>)> = Vec::new();
    let mut k: usize = 0;
    while rest.len() > 0
        invariant
            n == orig.len(),
            k <= orig.len(),
            rest@ == orig.subrange(k as int, orig.len() as int),
            ok@.map_values(|p: (String, Vec<Media>)| (p.0, p.1@)) == answered(
                orig.subrange(0, k as int),
            ),
        decreases rest@.len(),
    {
        let (name, wait) = rest.remove(0);
        proof {
            assert(orig.subrange(0, k + 1).drop_last() =~= orig.subrange(0, k as int));
            assert(orig.subrange(0, k + 1).last() == orig[k as int]);
            assert(rest@ =~= orig.subrange(k + 1, orig.len() as int));
        }
        match wait {
            ReplyWait::Replied(Ok(v)) => {
                let ghost before = ok@;
                let ghost vv = v@;
                ok.push((name, v));
                assert(ok@.map_values(|p: (String, Vec<Media>)| (p.0, p.1@)) =~= before.map_values(
                    |p: (String, Vec<Media>)| (p.0, p.1@),
                ).push((name, vv)));
            },
            _ => {},
        }
        k = k + 1;
    }
    assert(orig.subrange(0, k as int) =~= orig);
    flatten_results(ok)
}

/// The answer of one provider in a first-hit fetch of units: its units of
/// the wanted kind, if it answered with any; an empty, failed or late answer
/// moves on to the next provider.
pub fn unit_hit(name: String, wait: ReplyWait<Vec<Unit>>, chapters: bool) -> (r: Option<
    (String, Vec<Unit>),
>)
    ensures
        match wait {
            ReplyWait::Replied(Ok(v)) => if units_of_kind(v@, chapters).len() > 0 {
                r is Some && r->Some_0.0 == name && r->Some_0.1@ == units_of_kind(v@, chapters)
            } else {
                r is None
            },
            _ => r is None,
        },
{
    match wait {
        ReplyWait::Replied(Ok(v)) => {
            let kept = if chapters {
                chapters_of(&v)
            } else {
                episodes_of(&v)
            };
            if kept.len() > 0 {
                Some((name, kept))
            } else {
                None
            }
        },
        _ => None,
    }
}

/// The answer of one provider in a first-hit fetch of a chapter's pages: the
/// URLs of its page and image assets, if there are any.
pub fn page_hit(name: String, wait: ReplyWait<Vec<Asset>>) -> (r: Option<(String, Vec<String>)>)
    ensures
        match wait {
            ReplyWait::Replied(Ok(v)) => if page_assets(v@).len() > 0 {
                r is Some && r->Some_0.0 == name && r->Some_0.1@ == page_assets(v@).map_values(
                    |a: Asset| a.url,
                )
            } else {
                r is None
            },
            _ => r is None,
        },
{
    match wait {
        ReplyWait::Replied(Ok(v)) => {
            let urls = page_urls_of(&v);
            if urls.len() > 0 {
                Some((name, urls))
            } else {
                None
            }
        },
        _ => None,
    }
}

/// The answer of one provider in a first-hit fetch of an episode's streams:
/// its video assets, if there are any.
pub fn video_hit(name: String, wait: ReplyWait<Vec<Asset>>) -> (r: Option<(String, Vec<Asset>)>)
    ensures
        match wait {
            ReplyWait::Replied(Ok(v)) => if video_assets(v@).len() > 0 {
                r is Some && r->Some_0.0 == name && r->Some_0.1@ == video_assets(v@)
            } else {
                r is None
            },
            _ => r is None,
        },
{
    match wait {
        ReplyWait::Replied(Ok(v)) => {
            let vids = videos_of(&v);
            if vids.len() > 0 {
                Some((name, vids))
            } else {
                None
            }
        },
        _ => None,
    }
}

} // verus!

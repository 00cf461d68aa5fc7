use vstd::prelude::*;

use crate::model::{Asset, Media, Unit};
use crate::text::{ends_with, ends_with_spec, lower_seq, str_eq, to_ascii_lower};

verus! {

/// What `url::Url::parse` yields for a string: `None` when it does not parse,
/// else the URL's scheme and its host, if it has one.
pub uninterp spec fn url_parts_of(s: Seq<char>) -> Option<(Seq<char>, Option<Seq<char>>)>;

/// Relies on `url::Url::parse`, with `Url::scheme` and `Url::host_str` read off
/// the parsed value: the scheme and host of the URL, or `None` if it does not parse.
#[verifier::external_body]
fn parse_url_parts(s: &str) -> (r: Option<(String, Option<String>)>)
    ensures
        parts_view(r) == url_parts_of(s@),
{
    match url::Url::parse(s) {
        Ok(u) => Some((u.scheme().to_string(), u.host_str().map(|h| h.to_string()))),
        Err(_) => None,
    }
}

/// The view of a parsed URL's parts.
pub open spec fn parts_view(p: Option<(String, Option<String>)>) -> Option<
    (Seq<char>, Option<Seq<char>>),
> {
    match p {
        Some((scheme, host)) => Some(
            (
                scheme@,
                match host {
                    Some(h) => Some(h@),
                    None => None,
                },
            ),
        ),
        None => None,
    }
}

/// The view of an optional allow-list.
pub open spec fn hosts_view(h: Option<Vec<String>>) -> Option<Seq<Seq<char>>> {
    match h {
        Some(v) => Some(v@.map_values(|s: String| s@)),
        None => None,
    }
}

/// A host pattern admits a host: `*.apex` admits `apex` itself and every
/// subdomain of it; any other pattern admits exactly that host.
pub open spec fn host_matches_spec(host: Seq<char>, pattern: Seq<char>) -> bool {
    if pattern.len() >= 2 && pattern[0] == '*' && pattern[1] == '.' {
        host == pattern.subrange(2, pattern.len() as int) || ends_with_spec(
            host,
            pattern.subrange(1, pattern.len() as int),
        )
    } else {
        host == pattern
    }
}

/// Some pattern of the list admits the host.
pub open spec fn host_listed(list: Seq<Seq<char>>, host: Seq<char>) -> bool {
    exists|i: int| 0 <= i < list.len() && host_matches_spec(host, #[trigger] list[i])
}

/// Whether a URL with the given parsed parts may be used under an allow-list:
/// no list admits everything, an empty list admits nothing, and otherwise the
/// URL must parse, be `http` or `https`, and have a host (lowercased) that a
/// pattern admits.
pub open spec fn allowed_spec(
    hosts: Option<Seq<Seq<char>>>,
    parts: Option<(Seq<char>, Option<Seq<char>>)>,
) -> bool {
    match hosts {
        None => true,
        Some(list) => list.len() > 0 && match parts {
            None => false,
            Some((scheme, host)) => (scheme == "http"@ || scheme == "https"@) && match host {
                None => false,
                Some(h) => host_listed(list, lower_seq(h)),
            },
        },
    }
}

/// Whether a URL string may be used under an allow-list.
pub open spec fn url_ok(hosts: Option<Seq<Seq<char>>>, url: Seq<char>) -> bool {
    allowed_spec(hosts, url_parts_of(url))
}

/// An optional URL kept when admitted, else dropped.
pub open spec fn keep_url_spec(hosts: Option<Seq<Seq<char>>>, u: Option<String>) -> Option<String> {
    match u {
        Some(x) => if url_ok(hosts, x@) {
            Some(x)
        } else {
            None
        },
        None => None,
    }
}

/// The assets whose URL is admitted, in order.
pub open spec fn kept_assets(hosts: Option<Seq<Seq<char>>>, assets: Seq<Asset>) -> Seq<Asset> {
    assets.filter(|a: Asset| url_ok(hosts, a.url@))
}

/// A media entry with its link and cover link cleared where not admitted.
pub open spec fn media_filtered(hosts: Option<Seq<Seq<char>>>, m: Media) -> Media {
    Media { url: keep_url_spec(hosts, m.url), cover_url: keep_url_spec(hosts, m.cover_url), ..m }
}

/// A unit with its link cleared where not admitted.
pub open spec fn unit_filtered(hosts: Option<Seq<Seq<char>>>, u: Unit) -> Unit {
    Unit { url: keep_url_spec(hosts, u.url), ..u }
}

/// Whether a host pattern admits a host.
pub fn host_matches(host: &str, pattern: &str) -> (r: bool)
    ensures
        r == host_matches_spec(host@, pattern@),
{
    let plen = pattern.unicode_len();
    if plen >= 2 && pattern.get_char(0) == '*' && pattern.get_char(1) == '.' {
        let apex = pattern.substring_char(2, plen);
        if str_eq(host, apex) {
            true
        } else {
            let dotted = pattern.substring_char(1, plen);
            ends_with(host, dotted)
        }
    } else {
        str_eq(host, pattern)
    }
}

/// Whether some pattern of the list admits the host.
pub fn host_in_list(list: &Vec<String>, host: &str) -> (r: bool)
    ensures
        r == host_listed(list@.map_values(|s: String| s@), host@),
{
    let ghost view = list@.map_values(|s: String| s@);
    let mut i: usize = 0;
    while i < list.len()
        invariant
            view == list@.map_values(|s: String| s@),
            i <= list.len(),
            forall|k: int| 0 <= k < i ==> !host_matches_spec(host@, #[trigger] view[k]),
        decreases list.len() - i,
    {
        if host_matches(host, list[i].as_str()) {
            assert(host_matches_spec(host@, view[i as int]));
            return true;
        }
        i = i + 1;
    }
    false
}

/// Whether a URL with the given parsed parts may be used under an allow-list.
pub fn url_allowed_parts(
    allowed: &Option<Vec<String>>,
    parts: &Option<(String, Option<String>)>,
) -> (r: bool)
    ensures
        r == allowed_spec(hosts_view(*allowed), parts_view(*parts)),
{
    match allowed {
        None => true,
        Some(list) => {
            if list.len() == 0 {
                return false;
            }
            match parts {
                None => false,
                Some((scheme, host)) => {
                    let web = str_eq(scheme.as_str(), "http") || str_eq(scheme.as_str(), "https");
                    if !web {
                        return false;
                    }
                    match host {
                        None => false,
                        Some(h) => {
                            let lowered = to_ascii_lower(h.as_str());
                            host_in_list(list, lowered.as_str())
                        },
                    }
                },
            }
        },
    }
}

/// Whether a URL may be used under an allow-list.  An absent list admits every
/// URL and an empty one none, both without parsing.
pub fn url_allowed(allowed: &Option<Vec<String>>, url: &str) -> (r: bool)
    ensures
        r == url_ok(hosts_view(*allowed), url@),
{
    match allowed {
        None => true,
        Some(list) => {
            if list.len() == 0 {
                return false;
            }
            let parts = parse_url_parts(url);
            url_allowed_parts(allowed, &parts)
        },
    }
}

/// An optional URL kept when admitted, else dropped.
pub fn keep_url(allowed: &Option<Vec<String>>, u: &Option<String>) -> (r: Option<String>)
    ensures
        r == keep_url_spec(hosts_view(*allowed), *u),
{
    match u {
        Some(x) => {
            if url_allowed(allowed, x.as_str()) {
                Some(x.clone())
            } else {
                None
            }
        },
        None => None,
    }
}

/// Clears every media link and cover link that the allow-list does not admit.
pub fn filter_media_urls(allowed: &Option<Vec<String>>, list: &Vec<Media>) -> (r: Vec<Media>)
    ensures
        r@ == list@.map_values(|m: Media| media_filtered(hosts_view(*allowed), m)),
{
    let ghost h = hosts_view(*allowed);
    let mut out: Vec<Media> = Vec::new();
    let mut i: usize = 0;
    while i < list.len()
        invariant
            h == hosts_view(*allowed),
            i <= list.len(),
            out@ == list@.subrange(0, i as int).map_values(|m: Media| media_filtered(h, m)),
        decreases list.len() - i,
    {
        let m = &list[i];
        let url = keep_url(allowed, &m.url);
        let cover_url = keep_url(allowed, &m.cover_url);
        let fm = Media {
            id: m.id.clone(),
            mediatype: m.mediatype.copied(),
            title: m.title.clone(),
            description: crate::model::copy_opt(&m.description),
            url,
            cover_url,
        };
        out.push(fm);
        assert(list@.subrange(0, i + 1).map_values(|m: Media| media_filtered(h, m))
            =~= list@.subrange(0, i as int).map_values(|m: Media| media_filtered(h, m)).push(fm));
        i = i + 1;
    }
    assert(list@.subrange(0, list.len() as int) =~= list@);
    out
}

/// Clears every unit link that the allow-list does not admit.
pub fn filter_unit_urls(allowed: &Option<Vec<String>>, list: &Vec<Unit>) -> (r: Vec<Unit>)
    ensures
        r@ == list@.map_values(|u: Unit| unit_filtered(hosts_view(*allowed), u)),
{
    let ghost h = hosts_view(*allowed);
    let mut out: Vec<Unit> = Vec::new();
    let mut i: usize = 0;
    while i < list.len()
        invariant
            h == hosts_view(*allowed),
            i <= list.len(),
            out@ == list@.subrange(0, i as int).map_values(|u: Unit| unit_filtered(h, u)),
        decreases list.len() - i,
    {
        let u = list[i].copied();
        let url = keep_url(allowed, &u.url);
        let fu = Unit { url, ..u };
        out.push(fu);
        assert(list@.subrange(0, i + 1).map_values(|u: Unit| unit_filtered(h, u))
            =~= list@.subrange(0, i as int).map_values(|u: Unit| unit_filtered(h, u)).push(fu));
        i = i + 1;
    }
    assert(list@.subrange(0, list.len() as int) =~= list@);
    out
}

/// Keeps exactly the assets whose URL the allow-list admits, in order.
pub fn filter_assets(allowed: &Option<Vec<String>>, list: &Vec<Asset>) -> (r: Vec<Asset>)
    ensures
        r@ == kept_assets(hosts_view(*allowed), list@),
{
    let ghost h = hosts_view(*allowed);
    let ghost pred = |a: Asset| url_ok(h, a.url@);
    let mut out: Vec<Asset> = Vec::new();
    let mut i: usize = 0;
    while i < list.len()
        invariant
            h == hosts_view(*allowed),
            pred == (|a: Asset| url_ok(h, a.url@)),
            i <= list.len(),
            out@ == list@.subrange(0, i as int).filter(pred),
        decreases list.len() - i,
    {
        let ok = url_allowed(allowed, list[i].url.as_str());
        proof {
            reveal(Seq::filter);
            assert(list@.subrange(0, i + 1).drop_last() =~= list@.subrange(0, i as int));
        }
        if ok {
            out.push(list[i].copied());
        }
        i = i + 1;
    }
    assert(list@.subrange(0, list.len() as int) =~= list@);
    out
}

/// Whether the allow-list mutes the provider: present and empty.
pub open spec fn muted_spec(hosts: Option<Seq<Seq<char>>>) -> bool {
    match hosts {
        Some(l) => l.len() == 0,
        None => false,
    }
}

/// Whether the allow-list mutes the provider: present and empty.
pub fn is_muted(allowed: &Option<Vec<String>>) -> (r: bool)
    ensures
        r == muted_spec(hosts_view(*allowed)),
{
    match allowed {
        Some(list) => list.len() == 0,
        None => false,
    }
}


/// Under an allow-list, a URL that the list does not admit is neither kept as
/// a media link or cover link, nor as a unit link, nor carried by any asset
/// that the filter keeps.
pub proof fn lemma_disallowed_url_absent(
    hosts: Option<Seq<Seq<char>>>,
    u: String,
    m: Media,
    unit: Unit,
    assets: Seq<Asset>,
)
    requires
        hosts.is_some(),
        !url_ok(hosts, u@),
    ensures
        media_filtered(hosts, m).url != Some(u),
        media_filtered(hosts, m).cover_url != Some(u),
        unit_filtered(hosts, unit).url != Some(u),
        forall|i: int|
            0 <= i < kept_assets(hosts, assets).len() ==> (#[trigger] kept_assets(
                hosts,
                assets,
            )[i]).url@ != u@,
{
    let pred = |a: Asset| url_ok(hosts, a.url@);
    assert forall|i: int| 0 <= i < kept_assets(hosts, assets).len() implies (
    #[trigger] kept_assets(hosts, assets)[i]).url@ != u@ by {
        assets.lemma_filter_pred(pred, i);
    }
}

/// A present but empty allow-list admits no URL: every link is cleared and
/// every asset dropped.
pub proof fn lemma_empty_list_admits_nothing(url: Seq<char>, m: Media, unit: Unit, assets: Seq<Asset>)
    ensures
        !url_ok(Some(Seq::empty()), url),
        muted_spec(Some(Seq::empty())),
        media_filtered(Some(Seq::empty()), m).url.is_none(),
        media_filtered(Some(Seq::empty()), m).cover_url.is_none(),
        unit_filtered(Some(Seq::empty()), unit).url.is_none(),
        kept_assets(Some(Seq::empty()), assets).len() == 0,
{
    lemma_filter_none(assets, |a: Asset| url_ok(Some(Seq::empty()), a.url@));
}

/// Without an allow-list no URL is filtered: media, units and assets come
/// back as they were.
pub proof fn lemma_no_list_filters_nothing(url: Seq<char>, m: Media, unit: Unit, assets: Seq<Asset>)
    ensures
        url_ok(None, url),
        !muted_spec(None),
        media_filtered(None, m) == m,
        unit_filtered(None, unit) == unit,
        kept_assets(None, assets) == assets,
{
    lemma_filter_all(assets, |a: Asset| url_ok(None, a.url@));
}

proof fn lemma_filter_none<A>(s: Seq<A>, pred: spec_fn(A) -> bool)
    requires
        forall|a: A| !#[trigger] pred(a),
    ensures
        s.filter(pred).len() == 0,
    decreases s.len(),
{
    reveal(Seq::filter);
    if s.len() > 0 {
        lemma_filter_none(s.drop_last(), pred);
    }
}

proof fn lemma_filter_all<A>(s: Seq<A>, pred: spec_fn(A) -> bool)
    requires
        forall|a: A| #[trigger] pred(a),
    ensures
        s.filter(pred) == s,
    decreases s.len(),
{
    reveal(Seq::filter);
    if s.len() > 0 {
        lemma_filter_all(s.drop_last(), pred);
        assert(s.drop_last().push(s.last()) =~= s);
    } else {
        assert(s.filter(pred) =~= s);
    }
}

} // verus!

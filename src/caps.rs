use vstd::prelude::*;

use crate::model::{MediaType, ProviderCapabilities};
use crate::text::str_eq;

verus! {

/// Two media kinds are the same kind (an `Other` kind by its name).
pub open spec fn same_kind(a: MediaType, b: MediaType) -> bool {
    match (a, b) {
        (MediaType::Manga, MediaType::Manga) => true,
        (MediaType::Anime, MediaType::Anime) => true,
        (MediaType::Other(x), MediaType::Other(y)) => x@ == y@,
        _ => false,
    }
}

/// A provider declares that it serves this kind of media.
pub open spec fn serves(caps: ProviderCapabilities, kind: MediaType) -> bool {
    exists|i: int| 0 <= i < caps.media_types@.len() && same_kind(caps.media_types@[i], kind)
}

/// Whether two media kinds are the same kind.
pub fn kind_eq(a: &MediaType, b: &MediaType) -> (r: bool)
    ensures
        r == same_kind(*a, *b),
{
    match (a, b) {
        (MediaType::Manga, MediaType::Manga) => true,
        (MediaType::Anime, MediaType::Anime) => true,
        (MediaType::Other(x), MediaType::Other(y)) => str_eq(x.as_str(), y.as_str()),
        _ => false,
    }
}

/// Whether a provider's declared capabilities cover a kind of media.
pub fn supports_media(caps: &ProviderCapabilities, kind: &MediaType) -> (r: bool)
    ensures
        r == serves(*caps, *kind),
{
    let mut i: usize = 0;
    while i < caps.media_types.len()
        invariant
            i <= caps.media_types@.len(),
            forall|k: int| 0 <= k < i ==> !same_kind(#[trigger] caps.media_types@[k], *kind),
        decreases caps.media_types@.len() - i,
    {
        if kind_eq(&caps.media_types[i], kind) {
            return true;
        }
        i = i + 1;
    }
    false
}

/// Whether a provider's capabilities have to be asked for: when none are
/// cached yet, or a refresh is asked for.
pub fn needs_capabilities_fetch(cached: &Option<ProviderCapabilities>, refresh: bool) -> (r: bool)
    ensures
        r == (refresh || cached.is_none()),
{
    refresh || cached.is_none()
}

/// The providers, in order, whose capabilities cover a kind of media: the
/// ones a request of that kind is routed to.
pub fn routable(caps: &Vec<(String, ProviderCapabilities)>, kind: &MediaType) -> (r: Vec<String>)
    ensures
        r@.map_values(|s: String| s@) == caps@.filter(
            |c: (String, ProviderCapabilities)| serves(c.1, *kind),
        ).map_values(|c: (String, ProviderCapabilities)| c.0@),
{
    let ghost pred = |c: (String, ProviderCapabilities)| serves(c.1, *kind);
    let mut out: Vec<String> = Vec::new();
    let mut i: usize = 0;
    while i < caps.len()
        invariant
            i <= caps@.len(),
            pred == (|c: (String, ProviderCapabilities)| serves(c.1, *kind)),
            out@.map_values(|s: String| s@) == caps@.subrange(0, i as int).filter(pred).map_values(
                |c: (String, ProviderCapabilities)| c.0@,
            ),
        decreases caps@.len() - i,
    {
        proof {
            reveal(Seq::filter);
            assert(caps@.subrange(0, i + 1).drop_last() =~= caps@.subrange(0, i as int));
        }
        if supports_media(&caps[i].1, kind) {
            let ghost before = out@;
            let ghost f = caps@.subrange(0, i as int).filter(pred);
            out.push(caps[i].0.clone());
            assert(out@.map_values(|s: String| s@) =~= before.map_values(|s: String| s@).push(
                caps@[i as int].0@,
            ));
            assert(f.push(caps@[i as int]).map_values(|c: (String, ProviderCapabilities)| c.0@)
                =~= f.map_values(|c: (String, ProviderCapabilities)| c.0@).push(caps@[i as int].0@));
        }
        i = i + 1;
    }
    assert(caps@.subrange(0, caps@.len() as int) =~= caps@);
    out
}

} // verus!

use vstd::prelude::*;

use crate::text::str_eq;

verus! {

/// The value stored for a key: the first pair with that key.
pub open spec fn value_of(map: Seq<(String, String)>, key: Seq<char>) -> Option<Seq<char>>
    decreases map.len(),
{
    if map.len() == 0 {
        None
    } else if map[0].0@ == key {
        Some(map[0].1@)
    } else {
        value_of(map.drop_first(), key)
    }
}

/// The first non-empty value, in order.
pub open spec fn first_nonempty(map: Seq<(String, String)>) -> Option<Seq<char>>
    decreases map.len(),
{
    if map.len() == 0 {
        None
    } else if map[0].1@.len() > 0 {
        Some(map[0].1@)
    } else {
        first_nonempty(map.drop_first())
    }
}

/// The value of the first preferred language that has a non-empty value,
/// else the first non-empty value of any language.
pub open spec fn pick_spec(map: Seq<(String, String)>, langs: Seq<Seq<char>>) -> Option<Seq<char>>
    decreases langs.len(),
{
    if langs.len() == 0 {
        first_nonempty(map)
    } else {
        match value_of(map, langs[0]) {
            Some(v) if v.len() > 0 => Some(v),
            _ => pick_spec(map, langs.drop_first()),
        }
    }
}

fn value_for<'a>(map: &'a Vec<(String, String)>, key: &str) -> (r: Option<&'a String>)
    ensures
        match r {
            Some(v) => value_of(map@, key@) == Some(v@),
            None => value_of(map@, key@).is_none(),
        },
{
    let mut i: usize = 0;
    assert(map@.subrange(0, map@.len() as int) =~= map@);
    while i < map.len()
        invariant
            i <= map@.len(),
            value_of(map@, key@) == value_of(map@.subrange(i as int, map@.len() as int), key@),
        decreases map@.len() - i,
    {
        assert(map@.subrange(i as int, map@.len() as int).drop_first() =~= map@.subrange(
            i + 1,
            map@.len() as int,
        ));
        if str_eq(map[i].0.as_str(), key) {
            return Some(&map[i].1);
        }
        i = i + 1;
    }
    None
}

/// Picks the text of the first preferred language that has a non-empty
/// entry; failing that, the first non-empty entry of any language.
pub fn pick_lang(map: &Vec<(String, String)>, langs: &Vec<String>) -> (r: Option<String>)
    ensures
        match r {
            Some(v) => pick_spec(map@, langs@.map_values(|s: String| s@)) == Some(v@),
            None => pick_spec(map@, langs@.map_values(|s: String| s@)).is_none(),
        },
{
    let ghost lv = langs@.map_values(|s: String| s@);
    let mut i: usize = 0;
    assert(lv.subrange(0, lv.len() as int) =~= lv);
    while i < langs.len()
        invariant
            lv == langs@.map_values(|s: String| s@),
            i <= langs@.len(),
            pick_spec(map@, lv) == pick_spec(map@, lv.subrange(i as int, lv.len() as int)),
        decreases langs@.len() - i,
    {
        assert(lv.subrange(i as int, lv.len() as int).drop_first() =~= lv.subrange(
            i + 1,
            lv.len() as int,
        ));
        if let Some(v) = value_for(map, langs[i].as_str()) {
            if v.unicode_len() > 0 {
                return Some(v.clone());
            }
        }
        i = i + 1;
    }
    assert(lv.subrange(i as int, lv.len() as int) =~= Seq::<Seq<char>>::empty());
    let mut k: usize = 0;
    assert(map@.subrange(0, map@.len() as int) =~= map@);
    while k < map.len()
        invariant
            lv == langs@.map_values(|s: String| s@),
            k <= map@.len(),
            pick_spec(map@, lv) == first_nonempty(map@.subrange(k as int, map@.len() as int)),
        decreases map@.len() - k,
    {
        assert(map@.subrange(k as int, map@.len() as int).drop_first() =~= map@.subrange(
            k + 1,
            map@.len() as int,
        ));
        if map[k].1.unicode_len() > 0 {
            return Some(map[k].1.clone());
        }
        k = k + 1;
    }
    None
}

} // verus!

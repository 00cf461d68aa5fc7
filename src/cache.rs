use vstd::prelude::*;

use crate::errors::CoreError;
use crate::text::str_eq;

verus! {

/// One cached payload with the time (epoch seconds) it stops being served.
#[derive(Clone, Debug)]
pub struct CachedPayload {
    pub key: String,
    pub payload: String,
    pub expires_at: i64,
}

/// A keyed payload cache.  Implementations serve a payload only while
/// `now < expires_at`, and a write replaces whatever the key held.
pub trait Storage {
    fn get_cache(&self, key: &str, now: i64) -> Result<Option<String>, CoreError>;

    fn put_cache(&mut self, key: &str, payload: &str, expires_at: i64) -> Result<(), CoreError>;
}

/// The payload and expiry that the latest entry for a key holds.
pub open spec fn lookup(entries: Seq<CachedPayload>, key: Seq<char>) -> Option<(Seq<char>, i64)>
    decreases entries.len(),
{
    if entries.len() == 0 {
        None
    } else if entries.last().key@ == key {
        Some((entries.last().payload@, entries.last().expires_at))
    } else {
        lookup(entries.drop_last(), key)
    }
}

/// What a read at time `now` returns: the payload while it has not expired.
pub open spec fn read_spec(held: Option<(Seq<char>, i64)>, now: i64) -> Option<Seq<char>> {
    match held {
        Some((p, e)) => if now < e {
            Some(p)
        } else {
            None
        },
        None => None,
    }
}

/// `key` starts with `prefix`.
pub open spec fn has_prefix(key: Seq<char>, prefix: Seq<char>) -> bool {
    prefix.len() <= key.len() && key.subrange(0, prefix.len() as int) == prefix
}

/// An in-memory payload cache.
#[derive(Clone, Debug)]
pub struct CacheTable {
    pub entries: Vec<CachedPayload>,
}

/// An entry's key is dropped: equal to `key` when `whole`, else starting with it.
pub open spec fn gone_key(k: Seq<char>, key: Seq<char>, whole: bool) -> bool {
    if whole {
        k == key
    } else {
        has_prefix(k, key)
    }
}

/// The entries whose key is not dropped, in order.
pub open spec fn kept_after(s: Seq<CachedPayload>, key: Seq<char>, whole: bool) -> Seq<
    CachedPayload,
> {
    s.filter(|e: CachedPayload| !gone_key(e.key@, key, whole))
}

proof fn lemma_lookup_after_filter(s: Seq<CachedPayload>, key: Seq<char>, whole: bool, k: Seq<char>)
    ensures
        lookup(kept_after(s, key, whole), k) == if gone_key(k, key, whole) {
            None
        } else {
            lookup(s, k)
        },
    decreases s.len(),
{
    reveal(Seq::filter);
    if s.len() > 0 {
        lemma_lookup_after_filter(s.drop_last(), key, whole, k);
        let f = kept_after(s.drop_last(), key, whole);
        assert(f.push(s.last()).drop_last() =~= f);
    }
}

fn starts_with(key: &str, prefix: &str) -> (r: bool)
    ensures
        r == has_prefix(key@, prefix@),
{
    let n = key.unicode_len();
    let m = prefix.unicode_len();
    if m > n {
        return false;
    }
    str_eq(key.substring_char(0, m), prefix)
}

impl CacheTable {
    pub fn new() -> (r: CacheTable)
        ensures
            r.entries@.len() == 0,
    {
        CacheTable { entries: Vec::new() }
    }

    /// The payload cached under `key`, unless there is none or it expired at
    /// or before `now`.
    pub fn get_cache(&self, key: &str, now: i64) -> (r: Option<String>)
        ensures
            match r {
                Some(p) => read_spec(lookup(self.entries@, key@), now) == Some(p@),
                None => read_spec(lookup(self.entries@, key@), now).is_none(),
            },
    {
        let mut i: usize = self.entries.len();
        assert(self.entries@.subrange(0, i as int) =~= self.entries@);
        while i > 0
            invariant
                i <= self.entries@.len(),
                lookup(self.entries@, key@) == lookup(self.entries@.subrange(0, i as int), key@),
            decreases i,
        {
            let e = &self.entries[i - 1];
            assert(self.entries@.subrange(0, i as int).drop_last() =~= self.entries@.subrange(
                0,
                i - 1,
            ));
            if str_eq(e.key.as_str(), key) {
                if now < e.expires_at {
                    return Some(e.payload.clone());
                } else {
                    return None;
                }
            }
            i = i - 1;
        }
        None
    }

    /// Drops every entry whose key the predicate names.
    fn retain_keys(&mut self, key: &str, whole: bool)
        ensures
            final(self).entries@ == kept_after(old(self).entries@, key@, whole),
    {
        let ghost src = self.entries@;
        let mut kept: Vec<CachedPayload> = Vec::new();
        let mut i: usize = 0;
        while i < self.entries.len()
            invariant
                self.entries@ == src,
                i <= src.len(),
                kept@ == kept_after(src.subrange(0, i as int), key@, whole),
            decreases src.len() - i,
        {
            let e = &self.entries[i];
            let hit = if whole {
                str_eq(e.key.as_str(), key)
            } else {
                starts_with(e.key.as_str(), key)
            };
            proof {
                reveal(Seq::filter);
                assert(src.subrange(0, i + 1).drop_last() =~= src.subrange(0, i as int));
                assert(kept_after(src.subrange(0, i + 1), key@, whole) == if gone_key(
                    src[i as int].key@,
                    key@,
                    whole,
                ) {
                    kept_after(src.subrange(0, i as int), key@, whole)
                } else {
                    kept_after(src.subrange(0, i as int), key@, whole).push(src[i as int])
                });
            }
            if !hit {
                kept.push(
                    CachedPayload {
                        key: e.key.clone(),
                        payload: e.payload.clone(),
                        expires_at: e.expires_at,
                    },
                );
                assert(kept@.last() == src[i as int]);
            }
            i = i + 1;
        }
        assert(src.subrange(0, src.len() as int) =~= src);
        self.entries = kept;
    }

    /// Stores `payload` under `key` until `expires_at`, replacing what the key
    /// held; every other key keeps its entry.
    pub fn put_cache(&mut self, key: &str, payload: &str, expires_at: i64)
        ensures
            lookup(final(self).entries@, key@) == Some((payload@, expires_at)),
            forall|k: Seq<char>|
                k != key@ ==> #[trigger] lookup(final(self).entries@, k) == lookup(
                    old(self).entries@,
                    k,
                ),
    {
        self.retain_keys(key, true);
        let ghost mid = self.entries@;
        self.entries.push(
            CachedPayload {
                key: String::from_str(key),
                payload: String::from_str(payload),
                expires_at,
            },
        );
        proof {
            assert(self.entries@.drop_last() =~= mid);
            assert forall|k: Seq<char>| k != key@ implies #[trigger] lookup(self.entries@, k)
                == lookup(old(self).entries@, k) by {
                lemma_lookup_after_filter(old(self).entries@, key@, true, k);
            }
        }
    }

    /// Removes every entry whose key starts with `prefix`, or every entry when
    /// no prefix is given, and returns how many were removed.
    pub fn clear_cache_prefix(&mut self, prefix: Option<&str>) -> (r: u64)
        ensures
            r == old(self).entries@.len() - final(self).entries@.len(),
            forall|k: Seq<char>|
                #[trigger] lookup(final(self).entries@, k) == match prefix {
                    Some(p) => if has_prefix(k, p@) {
                        None
                    } else {
                        lookup(old(self).entries@, k)
                    },
                    None => None,
                },
    {
        let before = self.entries.len();
        match prefix {
            Some(p) => {
                self.retain_keys(p, false);
                proof {
                    assert forall|k: Seq<char>| #[trigger]
                        lookup(self.entries@, k) == if has_prefix(k, p@) {
                            None
                        } else {
                            lookup(old(self).entries@, k)
                        } by {
                        lemma_lookup_after_filter(old(self).entries@, p@, false, k);
                    }
                    old(self).entries@.lemma_filter_len(
                        |e: CachedPayload| !gone_key(e.key@, p@, false),
                    );
                }
            },
            None => {
                self.entries = Vec::new();
            },
        }
        (before - self.entries.len()) as u64
    }
}

impl Storage for CacheTable {
    fn get_cache(&self, key: &str, now: i64) -> Result<Option<String>, CoreError> {
        Ok(CacheTable::get_cache(self, key, now))
    }

    fn put_cache(&mut self, key: &str, payload: &str, expires_at: i64) -> Result<(), CoreError> {
        CacheTable::put_cache(self, key, payload, expires_at);
        Ok(())
    }
}

/// A write followed by a read of the same key before the write's expiry
/// returns the payload just written; a read at or after the expiry returns
/// nothing.
pub proof fn lemma_read_after_write(
    before: Seq<CachedPayload>,
    after: Seq<CachedPayload>,
    key: Seq<char>,
    payload: Seq<char>,
    expires_at: i64,
    now: i64,
)
    requires
        lookup(after, key) == Some((payload, expires_at)),
    ensures
        now < expires_at ==> read_spec(lookup(after, key), now) == Some(payload),
        now >= expires_at ==> read_spec(lookup(after, key), now).is_none(),
{
}

} // verus!

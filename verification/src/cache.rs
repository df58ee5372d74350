//! The request-fingerprint cache: an append-only sequence of key/payload
//! entries with earliest-write-wins lookup.
//!
//! Entries are never overwritten, deduplicated, expired or evicted; growth is
//! unbounded, which is acceptable for a bounded number of distinct queries
//! per run but is a known scalability limit. `lookup` returns the first
//! entry with a matching key in storage order — a deliberate policy, not an
//! accident of scanning. The embedding application is responsible for
//! persisting the entries (see the cache file codec); this module holds the
//! semantics only.

use vstd::prelude::*;

use crate::bytes::bytes_eq;

verus! {

/// One cached entry: a request fingerprint and the raw payload that was
/// fetched for it.
pub struct CacheEntry {
    pub key: Vec<u8>,
    pub payload: Vec<u8>,
}

impl View for CacheEntry {
    type V = (Seq<u8>, Seq<u8>);

    open spec fn view(&self) -> (Seq<u8>, Seq<u8>) {
        (self.key@, self.payload@)
    }
}

/// The payload of the first entry of `entries` whose key is `key`, if any:
/// the earliest write wins.
pub open spec fn spec_lookup(entries: Seq<(Seq<u8>, Seq<u8>)>, key: Seq<u8>) -> Option<Seq<u8>>
    decreases entries.len(),
{
    if entries.len() == 0 {
        None
    } else if entries[0].0 == key {
        Some(entries[0].1)
    } else {
        spec_lookup(entries.drop_first(), key)
    }
}

/// A lookup is decided by the first matching index, when one exists.
pub proof fn lemma_lookup_at_first_match(entries: Seq<(Seq<u8>, Seq<u8>)>, key: Seq<u8>, i: int)
    requires
        0 <= i < entries.len(),
        entries[i].0 == key,
        forall|j: int| 0 <= j < i ==> entries[j].0 != key,
    ensures
        spec_lookup(entries, key) == Some(entries[i].1),
    decreases i,
{
    if i == 0 {
    } else {
        lemma_lookup_at_first_match(entries.drop_first(), key, i - 1);
    }
}

/// When no entry matches, a lookup misses.
pub proof fn lemma_lookup_no_match(entries: Seq<(Seq<u8>, Seq<u8>)>, key: Seq<u8>)
    requires
        forall|j: int| 0 <= j < entries.len() ==> entries[j].0 != key,
    ensures
        spec_lookup(entries, key) is None,
    decreases entries.len(),
{
    if entries.len() > 0 {
        lemma_lookup_no_match(entries.drop_first(), key);
    }
}

/// How a lookup reads an appended entry: an existing result is kept
/// (earliest write wins); a fresh key hits the new entry.
pub proof fn lemma_lookup_push(s: Seq<(Seq<u8>, Seq<u8>)>, e: (Seq<u8>, Seq<u8>), k: Seq<u8>)
    ensures
        spec_lookup(s.push(e), k) == (if spec_lookup(s, k) is Some {
            spec_lookup(s, k)
        } else if e.0 == k {
            Some(e.1)
        } else {
            Option::<Seq<u8>>::None
        }),
    decreases s.len(),
{
    let t = s.push(e);
    if s.len() == 0 {
        assert(t.len() == 1);
        assert(t[0] == e);
        assert(t.drop_first() =~= Seq::<(Seq<u8>, Seq<u8>)>::empty());
        if e.0 == k {
            assert(spec_lookup(t, k) == Some(e.1));
        } else {
            assert(spec_lookup(t, k) == spec_lookup(t.drop_first(), k));
            assert(spec_lookup(t.drop_first(), k) is None);
        }
    } else {
        lemma_lookup_push(s.drop_first(), e, k);
        assert(t.drop_first() =~= s.drop_first().push(e));
        assert(t[0] == s[0]);
    }
}

/// The append-only request cache.
pub struct RequestCache {
    entries: Vec<CacheEntry>,
}

impl View for RequestCache {
    type V = Seq<(Seq<u8>, Seq<u8>)>;

    closed spec fn view(&self) -> Seq<(Seq<u8>, Seq<u8>)> {
        self.entries@.map_values(|e: CacheEntry| e@)
    }
}

impl RequestCache {
    /// A fresh, empty cache.
    pub fn new() -> (r: RequestCache)
        ensures
            r@ == Seq::<(Seq<u8>, Seq<u8>)>::empty(),
    {
        let r = RequestCache { entries: Vec::new() };
        proof {
            assert(r@ =~= Seq::<(Seq<u8>, Seq<u8>)>::empty());
        }
        r
    }

    /// How many entries are stored.
    pub fn len(&self) -> (n: usize)
        ensures
            n == self@.len(),
    {
        self.entries.len()
    }

    /// Borrow the stored entries, oldest first (for persistence).
    pub fn entries(&self) -> (r: &Vec<CacheEntry>)
        ensures
            r@.map_values(|e: CacheEntry| e@) == self@,
    {
        &self.entries
    }

    /// Rebuild a cache from persisted entries, preserving their order.
    pub fn from_entries(entries: Vec<CacheEntry>) -> (r: RequestCache)
        ensures
            r@ == entries@.map_values(|e: CacheEntry| e@),
    {
        RequestCache { entries }
    }

    /// Scan for `key`; the first entry stored under it wins.
    pub fn lookup(&self, key: &[u8]) -> (r: Option<&Vec<u8>>)
        ensures
            match r {
                Some(p) => spec_lookup(self@, key@) == Some(p@),
                None => spec_lookup(self@, key@) is None,
            },
    {
        let n = self.entries.len();
        let mut i: usize = 0;
        while i < n
            invariant
                n == self@.len(),
                n == self.entries@.len(),
                0 <= i <= n,
                forall|j: int| 0 <= j < i ==> self@[j].0 != key@,
                forall|j: int| 0 <= j < n ==> self@[j] == self.entries@[j]@,
            decreases n - i,
        {
            if bytes_eq(self.entries[i].key.as_slice(), key) {
                proof {
                    lemma_lookup_at_first_match(self@, key@, i as int);
                }
                return Some(&self.entries[i].payload);
            }
            i += 1;
        }
        proof {
            lemma_lookup_no_match(self@, key@);
        }
        None
    }

    /// Append an entry; never deduplicates or overwrites. Storing a key that
    /// is already present leaves every lookup result unchanged.
    pub fn store(&mut self, key: Vec<u8>, payload: Vec<u8>)
        ensures
            final(self)@ == old(self)@.push((key@, payload@)),
    {
        let ghost before = self@;
        self.entries.push(CacheEntry { key, payload });
        proof {
            assert(self@ =~= before.push((self.entries@.last().key@,
                self.entries@.last().payload@)));
        }
    }

    /// On a hit, return the cached payload without invoking `fetch`; on a
    /// miss, invoke `fetch` once, and store its payload before returning it
    /// when it succeeds; on fetch failure, store nothing.
    pub fn get_or_fetch<E, F: FnOnce() -> Result<Vec<u8>, E>>(
        &mut self,
        key: &[u8],
        fetch: F,
    ) -> (r: Result<Vec<u8>, E>)
        requires
            call_requires(fetch, ()),
        ensures
            spec_lookup(old(self)@, key@) matches Some(p) ==> final(self)@ == old(self)@ && (
            r matches Ok(v) && v@ == p),
            spec_lookup(old(self)@, key@) is None ==> match r {
                Ok(v) => (exists|fv: Vec<u8>|
                    fv@ == v@ && call_ensures(fetch, (), Ok(fv))) && final(self)@ == old(
                    self,
                )@.push((key@, v@)),
                Err(e) => call_ensures(fetch, (), Err(e)) && final(self)@ == old(self)@,
            },
    {
        let cached = match self.lookup(key) {
            Some(p) => Some(crate::bytes::bytes_of(p.as_slice())),
            None => None,
        };
        match cached {
            Some(p) => Ok(p),
            None => {
                match fetch() {
                    Ok(payload) => {
                        let keep = crate::bytes::bytes_of(payload.as_slice());
                        self.store(crate::bytes::bytes_of(key), payload);
                        Ok(keep)
                    },
                    Err(e) => Err(e),
                }
            },
        }
    }
}

/// Prepare the request cache for a run of the tool: a fresh, empty cache.
/// The embedding application layers directory and file handling around it.
pub fn create_request_cache() -> (r: RequestCache)
    ensures
        r@ == Seq::<(Seq<u8>, Seq<u8>)>::empty(),
{
    RequestCache::new()
}

/// Set up everything the pricing engine needs in-process; currently that is
/// the request cache alone.
pub fn setup_environment() -> (r: RequestCache)
    ensures
        r@ == Seq::<(Seq<u8>, Seq<u8>)>::empty(),
{
    create_request_cache()
}

} // verus!

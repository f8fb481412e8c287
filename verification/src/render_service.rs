//! The cache in front of the player render API: renders are kept per player
//! for an hour.

use vstd::prelude::*;

verus! {

/// One cached value and the second it was stored at.
pub struct CacheEntry {
    key: String,
    value: Vec<u8>,
    stored_at: u64,
}

/// A map from keys to byte buffers whose entries are served for `ttl` seconds
/// after they were stored.
pub struct ExpiringCache {
    entries: Vec<CacheEntry>,
    ttl_secs: u64,
}

/// Whether an entry stored at `stored_at` is still served at `now`.
pub open spec fn is_fresh(stored_at: u64, ttl: u64, now: u64) -> bool {
    now < stored_at + ttl
}

impl ExpiringCache {
    #[verifier::type_invariant]
    spec fn keys_distinct(self) -> bool {
        forall|i: int, j: int|
            0 <= i < self.entries@.len() && 0 <= j < self.entries@.len() && i != j
                ==> #[trigger] self.entries@[i].key@ != #[trigger] self.entries@[j].key@
    }

    /// How long an entry is served, in seconds.
    pub closed spec fn ttl(&self) -> u64 {
        self.ttl_secs
    }

    /// Whether `key` has an entry (fresh or not).
    pub closed spec fn has(&self, key: Seq<char>) -> bool {
        exists|i: int| 0 <= i < self.entries@.len() && self.entries@[i].key@ == key
    }

    closed spec fn index_of(&self, key: Seq<char>) -> int {
        choose|i: int| 0 <= i < self.entries@.len() && self.entries@[i].key@ == key
    }

    /// The cached contents: each key with its value and the second it was
    /// stored at.
    pub closed spec fn view(&self) -> Map<Seq<char>, (Seq<u8>, u64)> {
        Map::new(
            |k: Seq<char>| self.has(k),
            |k: Seq<char>| (self.entries@[self.index_of(k)].value@, self.entries@[self.index_of(k)].stored_at),
        )
    }

    /// An empty cache whose entries are served for `ttl_secs` seconds.
    pub fn new(ttl_secs: u64) -> (c: Self)
        ensures
            c.ttl() == ttl_secs,
            c.view() == Map::<Seq<char>, (Seq<u8>, u64)>::empty(),
    {
        let c = ExpiringCache { entries: Vec::new(), ttl_secs };
        assert(c.view() =~= Map::<Seq<char>, (Seq<u8>, u64)>::empty());
        c
    }

    fn find(&self, key: &str) -> (res: Option<usize>)
        ensures
            match res {
                Some(i) => i < self.entries@.len() && self.entries@[i as int].key@ == key@
                    && self.index_of(key@) == i,
                None => !self.has(key@),
            },
    {
        proof { use_type_invariant(self); }
        let n = self.entries.len();
        let mut i: usize = 0;
        while i < n
            invariant
                n == self.entries@.len(),
                i <= n,
                forall|j: int| 0 <= j < i ==> self.entries@[j].key@ != key@,
            decreases n - i,
        {
            if crate::text::str_eq(self.entries[i].key.as_str(), key) {
                proof {
                    use_type_invariant(self);
                    let k = self.index_of(key@);
                    assert(self.has(key@));
                    assert(self.entries@[k].key@ == key@);
                }
                return Some(i);
            }
            i = i + 1;
        }
        None
    }

    /// The value stored for `key` if it is still fresh at second `now`.
    pub fn get(&self, key: &str, now: u64) -> (res: Option<Vec<u8>>)
        ensures
            match res {
                Some(v) => self.view().contains_key(key@) && v@ == self.view()[key@].0
                    && is_fresh(self.view()[key@].1, self.ttl(), now),
                None => !self.view().contains_key(key@) || !is_fresh(self.view()[key@].1, self.ttl(), now),
            },
    {
        match self.find(key) {
            Some(i) => {
                let e = &self.entries[i];
                if (now as u128) < (e.stored_at as u128) + (self.ttl_secs as u128) {
                    let v = e.value.clone();
                    assert(v@ =~= e.value@);
                    Some(v)
                } else {
                    None
                }
            },
            None => None,
        }
    }

    /// Stores `value` for `key` at second `now`, replacing an older entry.
    pub fn insert(&mut self, key: String, value: Vec<u8>, now: u64)
        ensures
            final(self).ttl() == old(self).ttl(),
            final(self).view() == old(self).view().insert(key@, (value@, now)),
    {
        proof { use_type_invariant(&*self); }
        let ghost old_entries = self.entries@;
        let ghost old_view = self.view();
        let ghost k = key@;
        let ghost v = value@;
        let found = self.find(key.as_str());
        let mut entries: Vec<CacheEntry> = Vec::new();
        std::mem::swap(&mut entries, &mut self.entries);
        match found {
            Some(i) => {
                entries.set(i, CacheEntry { key, value, stored_at: now });
            },
            None => {
                entries.push(CacheEntry { key, value, stored_at: now });
            },
        }
        proof {
            assert forall|a: int, b: int|
                0 <= a < entries@.len() && 0 <= b < entries@.len() && a != b
                    implies #[trigger] entries@[a].key@ != #[trigger] entries@[b].key@ by {
                if a < old_entries.len() && b < old_entries.len() {
                    if found is Some {
                        let fi = found->0 as int;
                        if a == fi {
                            assert(old_entries[a].key@ == k);
                        } else if b == fi {
                            assert(old_entries[b].key@ == k);
                        } else {
                            assert(old_entries[a].key@ != old_entries[b].key@);
                        }
                    } else {
                        assert(old_entries[a].key@ != old_entries[b].key@);
                    }
                } else if a >= old_entries.len() {
                    assert(!(exists|x: int| 0 <= x < old_entries.len() && old_entries[x].key@ == k));
                    assert(old_entries[b].key@ != k);
                } else {
                    assert(!(exists|x: int| 0 <= x < old_entries.len() && old_entries[x].key@ == k));
                    assert(old_entries[a].key@ != k);
                }
            }
        }
        self.entries = entries;
        proof {
            use_type_invariant(&*self);
            let new_view = self.view();
            let expected = old_view.insert(k, (v, now));
            assert forall|q: Seq<char>| #[trigger] new_view.contains_key(q) == expected.contains_key(q) by {
                if q == k {
                    let at = match found { Some(i) => i as int, None => old_entries.len() as int };
                    assert(self.entries@[at].key@ == k);
                } else if expected.contains_key(q) {
                    let x = choose|x: int| 0 <= x < old_entries.len() && old_entries[x].key@ == q;
                    assert(self.entries@[x].key@ == q);
                } else if new_view.contains_key(q) {
                    let x = choose|x: int| 0 <= x < self.entries@.len() && self.entries@[x].key@ == q;
                    assert(old_entries[x].key@ == q);
                }
            }
            assert forall|q: Seq<char>| #[trigger] new_view.contains_key(q) implies new_view[q] == expected[q] by {
                let x = self.index_of(q);
                if q == k {
                    let at = match found { Some(i) => i as int, None => old_entries.len() as int };
                    assert(self.entries@[at].key@ == k);
                    assert(x == at);
                } else {
                    let y = choose|y: int| 0 <= y < old_entries.len() && old_entries[y].key@ == q;
                    assert(self.entries@[y].key@ == q);
                    assert(x == y);
                }
            }
            assert(new_view =~= expected);
        }
    }
}

/// Caches player renders, which are slow to fetch.
pub struct PlayerRenderService {
    cache: ExpiringCache,
}

/// How long a render is kept: 60 minutes.
pub const RENDER_TTL_SECS: u64 = 3600;

impl PlayerRenderService {
    /// The renders cached so far (see `ExpiringCache::view`).
    pub closed spec fn view(&self) -> Map<Seq<char>, (Seq<u8>, u64)> {
        self.cache.view()
    }

    /// How long a render is served, in seconds.
    pub closed spec fn ttl(&self) -> u64 {
        self.cache.ttl()
    }

    /// A service with an empty cache that keeps renders for 60 minutes.
    fn new() -> (s: Self)
        ensures
            s.ttl() == RENDER_TTL_SECS,
            s.view() == Map::<Seq<char>, (Seq<u8>, u64)>::empty(),
    {
        PlayerRenderService { cache: ExpiringCache::new(RENDER_TTL_SECS) }
    }

    /// The service that the process-wide instance is made of: an empty cache
    /// that keeps renders for 60 minutes.
    pub fn instance() -> (s: Self)
        ensures
            s.ttl() == RENDER_TTL_SECS,
            s.view() == Map::<Seq<char>, (Seq<u8>, u64)>::empty(),
    {
        Self::new()
    }

    /// The render cached for `username`, if it was stored less than an hour
    /// before `now`.
    pub fn cached_render(&self, username: &str, now: u64) -> (res: Option<Vec<u8>>)
        ensures
            match res {
                Some(v) => self.view().contains_key(username@) && v@ == self.view()[username@].0
                    && is_fresh(self.view()[username@].1, self.ttl(), now),
                None => !self.view().contains_key(username@)
                    || !is_fresh(self.view()[username@].1, self.ttl(), now),
            },
    {
        self.cache.get(username, now)
    }

    /// Records a freshly fetched render for `username` at second `now`.
    pub fn store_render(&mut self, username: &str, render: Vec<u8>, now: u64)
        ensures
            final(self).ttl() == old(self).ttl(),
            final(self).view() == old(self).view().insert(username@, (render@, now)),
    {
        self.cache.insert(username.to_owned(), render, now);
    }
}

/// Read after write: after `store_render(user, render, now)` the render is
/// served for `user` from `now` until `ttl()` seconds later and not after,
/// and every other player's entry is as it was.
pub proof fn lemma_store_then_read(
    s: PlayerRenderService,
    user: Seq<char>,
    other: Seq<char>,
    render: Seq<u8>,
    now: u64,
    t: u64,
)
    ensures
        ({
            let after = s.view().insert(user, (render, now));
            &&& after.contains_key(user)
            &&& after[user].0 == render
            &&& (now <= t < now + s.ttl() ==> is_fresh(after[user].1, s.ttl(), t))
            &&& (t >= now + s.ttl() ==> !is_fresh(after[user].1, s.ttl(), t))
            &&& (other != user ==> after.contains_key(other) == s.view().contains_key(other))
            &&& (other != user && s.view().contains_key(other) ==> after[other] == s.view()[other])
        }),
{
}

} // verus!

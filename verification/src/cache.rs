//! The result cache: rendered skins by request, served while they are fresh.

use dashmap::DashMap;
use std::time::{Duration, Instant};
use vstd::prelude::*;
use crate::skin::{SkinQuery, SkinQueryView};

verus! {

/// `std::time::Instant`, a moment on the monotonic clock. Nothing of its
/// inside is known here.
#[verifier::external_type_specification]
#[verifier::external_body]
pub struct ExInstant(Instant);

/// How long an entry is served: 900 seconds, in nanoseconds.
pub const TTL_NANOS: u128 = 900_000_000_000;

/// `Instant::now`: the present moment. Nothing is claimed of it.
#[verifier::external_body]
fn instant_now() -> Instant {
    Instant::now()
}

/// `Instant::elapsed`: the time since `origin`. Nothing is claimed of it.
#[verifier::external_body]
fn instant_elapsed(origin: &Instant) -> Duration {
    origin.elapsed()
}

/// `Duration::as_nanos`: a span of time in nanoseconds. Nothing is claimed
/// of it.
#[verifier::external_body]
fn duration_nanos(span: &Duration) -> u128 {
    span.as_nanos()
}

/// A monotonic clock that counts nanoseconds from its start.
pub(crate) struct Clock {
    origin: Instant,
}

impl Clock {
    /// A clock that starts now.
    pub(crate) fn start() -> Clock {
        Clock { origin: instant_now() }
    }

    /// The reading of the clock.
    pub(crate) fn now(&self) -> u128 {
        let span = instant_elapsed(&self.origin);
        duration_nanos(&span)
    }
}

/// How often the whole cache is flushed, in seconds.
pub const FLUSH_INTERVAL_SECS: u64 = 3600;

/// A rendered skin and the reading of the clock at which it was stored.
#[derive(Debug, PartialEq, Eq)]
pub struct CacheItem {
    /// When the entry was placed in the cache.
    pub timestamp: u128,
    /// The rendered image.
    pub data: Vec<u8>,
}

/// The mathematical value of a `CacheItem`.
pub struct CacheItemView {
    pub timestamp: nat,
    pub data: Seq<u8>,
}

impl CacheItemView {
    /// An entry is fresh while its age is at most the time to live. A reading
    /// before the entry's own gives it the age zero.
    pub open spec fn fresh_at(self, now: nat) -> bool {
        now - self.timestamp <= TTL_NANOS
    }
}

impl View for CacheItem {
    type V = CacheItemView;

    open spec fn view(&self) -> CacheItemView {
        CacheItemView { timestamp: self.timestamp as nat, data: self.data@ }
    }
}

impl Clone for CacheItem {
    fn clone(&self) -> (r: Self)
        ensures
            r@ == self@,
    {
        CacheItem { timestamp: self.timestamp, data: self.data.clone() }
    }
}

impl CacheItem {
    /// An entry stored at the reading `now`.
    pub fn new(data: Vec<u8>, now: u128) -> (r: Self)
        ensures
            r@ == (CacheItemView { timestamp: now as nat, data: data@ }),
    {
        CacheItem { timestamp: now, data }
    }

    /// Whether the entry is still fresh at the reading `now`.
    pub fn is_acutal(&self, now: u128) -> (r: bool)
        ensures
            r == self@.fresh_at(now as nat),
    {
        now <= self.timestamp || now - self.timestamp <= TTL_NANOS
    }
}

/// The value of a key of the cache: the request that it stands for.
pub open spec fn key_view(key: (String, Option<u32>, Option<u32>)) -> SkinQueryView {
    SkinQueryView { name: key.0@, body: key.1, feet: key.2 }
}

/// The values of a list of keys, in order.
pub open spec fn key_views(keys: Seq<(String, Option<u32>, Option<u32>)>) -> Seq<SkinQueryView> {
    keys.map_values(|k: (String, Option<u32>, Option<u32>)| key_view(k))
}

/// The cache that holds no entry.
pub open spec fn no_entries() -> Map<SkinQueryView, CacheItemView> {
    Map::empty()
}

/// `keys` names every entry of `entries` exactly once.
pub open spec fn lists_keys(keys: Seq<SkinQueryView>, entries: Map<SkinQueryView, CacheItemView>) -> bool {
    &&& forall|q: SkinQueryView| entries.contains_key(q) <==> keys.contains(q)
    &&& keys.no_duplicates()
}

/// The entries that a map of the cache holds, by request. Two keys are the
/// same when the name and both tints are.
pub uninterp spec fn cache_entries(
    m: DashMap<(String, Option<u32>, Option<u32>), CacheItem>,
) -> Map<SkinQueryView, CacheItemView>;

/// `DashMap::new`: a map that holds nothing.
#[verifier::external_body]
fn entries_new() -> (r: DashMap<(String, Option<u32>, Option<u32>), CacheItem>)
    ensures
        cache_entries(r) == no_entries(),
{
    DashMap::new()
}

/// `DashMap::get`: a copy of the entry under `key`, if the map holds one;
/// keys are equal when name and both tints are.
#[verifier::external_body]
fn entries_get(
    m: &DashMap<(String, Option<u32>, Option<u32>), CacheItem>,
    key: &(String, Option<u32>, Option<u32>),
) -> (r: Option<CacheItem>)
    ensures
        r is Some == cache_entries(*m).contains_key(key_view(*key)),
        r matches Some(item) ==> item@ == cache_entries(*m)[key_view(*key)],
{
    m.get(key).map(|e| e.value().clone())
}

/// `DashMap::insert`: the entry stands under `key` afterwards, in place of
/// what was there; every other key keeps what it had.
#[verifier::external_body]
fn entries_insert(
    m: &mut DashMap<(String, Option<u32>, Option<u32>), CacheItem>,
    key: (String, Option<u32>, Option<u32>),
    item: CacheItem,
)
    ensures
        cache_entries(*final(m)) == cache_entries(*old(m)).insert(key_view(key), item@),
{
    m.insert(key, item);
}

/// `DashMap::remove`: nothing stands under `key` afterwards; every other key
/// keeps what it had.
#[verifier::external_body]
fn entries_remove(
    m: &mut DashMap<(String, Option<u32>, Option<u32>), CacheItem>,
    key: &(String, Option<u32>, Option<u32>),
)
    ensures
        cache_entries(*final(m)) == cache_entries(*old(m)).remove(key_view(*key)),
{
    m.remove(key);
}

/// `DashMap::iter`: the key of every entry exactly once, in no stated order.
#[verifier::external_body]
fn entries_keys(m: &DashMap<(String, Option<u32>, Option<u32>), CacheItem>) -> (r: Vec<
    (String, Option<u32>, Option<u32>),
>)
    ensures
        lists_keys(key_views(r@), cache_entries(*m)),
{
    m.iter().map(|e| e.key().clone()).collect()
}

/// What the cache answers to a request at the reading `now`: the stored
/// image if there is an entry and it is fresh, else nothing.
pub open spec fn cached(
    entries: Map<SkinQueryView, CacheItemView>,
    query: SkinQueryView,
    now: nat,
) -> Option<Seq<u8>> {
    if entries.contains_key(query) && entries[query].fresh_at(now) {
        Some(entries[query].data)
    } else {
        None
    }
}

/// The result cache.
pub struct CacheStore {
    /// The clock that stamps the entries.
    clock: Clock,
    /// Entries by request.
    store: DashMap<(String, Option<u32>, Option<u32>), CacheItem>,
}

impl View for CacheStore {
    type V = Map<SkinQueryView, CacheItemView>;

    closed spec fn view(&self) -> Map<SkinQueryView, CacheItemView> {
        cache_entries(self.store)
    }
}

impl CacheStore {
    /// An empty cache with a clock of its own.
    pub fn new() -> (r: CacheStore)
        ensures
            r@ == no_entries(),
    {
        CacheStore { clock: Clock::start(), store: entries_new() }
    }

    /// The reading of the cache's clock.
    pub(crate) fn now(&self) -> u128 {
        self.clock.now()
    }

    /// Stores `data` under `query` with the stamp `now`, in place of any
    /// entry that the request had.
    pub fn save_at(&mut self, query: &SkinQuery, data: &[u8], now: u128)
        ensures
            final(self)@ == old(self)@.insert(
                query@,
                CacheItemView { timestamp: now as nat, data: data@ },
            ),
    {
        let key = (query.name.clone(), query.body, query.feet);
        let item = CacheItem::new(vstd::slice::slice_to_vec(data), now);
        entries_insert(&mut self.store, key, item);
    }

    /// Stores `data` under `query`, stamped with the reading of the cache's
    /// clock, in place of any entry that the request had.
    pub fn save(&mut self, query: &SkinQuery, data: &[u8])
        ensures
            exists|now: nat|
                final(self)@ == old(self)@.insert(
                    query@,
                    CacheItemView { timestamp: now, data: data@ },
                ),
    {
        let now = self.now();
        self.save_at(query, data, now);
    }

    /// The image stored for `query`, if there is one and it is fresh at the
    /// reading `now`. A stale entry is a miss and stays where it is.
    pub fn get_at(&self, query: &SkinQuery, now: u128) -> (r: Option<Vec<u8>>)
        ensures
            r is Some == cached(self@, query@, now as nat) is Some,
            r matches Some(data) ==> Some(data@) == cached(self@, query@, now as nat),
    {
        let key = (query.name.clone(), query.body, query.feet);
        match entries_get(&self.store, &key) {
            Some(item) => {
                if item.is_acutal(now) {
                    Some(item.data)
                } else {
                    None
                }
            },
            None => None,
        }
    }

    /// The image stored for `query`, if there is one and it is fresh by the
    /// cache's clock. Whatever the clock reads, only what was stored for
    /// this request is served, and a request without an entry is a miss.
    pub fn get(&self, query: &SkinQuery) -> (r: Option<Vec<u8>>)
        ensures
            exists|now: nat|
                r is Some == cached(self@, query@, now) is Some && (r matches Some(data) ==> Some(
                    data@,
                ) == cached(self@, query@, now)),
            r matches Some(data) ==> self@.contains_key(query@) && data@ == self@[query@].data,
    {
        let now = self.now();
        self.get_at(query, now)
    }

    /// The requests that have an entry, fresh or stale, each once.
    pub fn keys(&self) -> (r: Vec<SkinQuery>)
        ensures
            lists_keys(crate::skin::query_views(r@), self@),
    {
        let keys = entries_keys(&self.store);
        let ghost listed = key_views(keys@);
        let mut out: Vec<SkinQuery> = Vec::new();
        let mut i: usize = 0;
        proof {
            assert(crate::skin::query_views(out@) =~= listed.take(0));
        }
        while i < keys.len()
            invariant
                i <= keys.len(),
                listed == key_views(keys@),
                crate::skin::query_views(out@) == listed.take(i as int),
            decreases keys.len() - i,
        {
            let key = &keys[i];
            let ghost before = crate::skin::query_views(out@);
            out.push(SkinQuery { name: key.0.clone(), body: key.1, feet: key.2 });
            proof {
                assert(crate::skin::query_views(out@) =~= before.push(key_view(*key)));
                assert(listed.take(i + 1) =~= listed.take(i as int).push(listed[i as int]));
            }
            i += 1;
        }
        proof {
            assert(listed.take(i as int) =~= listed);
        }
        out
    }

    /// Removes every entry, fresh or stale, and returns how many there were.
    /// Afterwards every request is a miss.
    pub fn flush_all(&mut self) -> (removed: usize)
        ensures
            final(self)@ == no_entries(),
            forall|q: SkinQueryView, now: nat| cached(final(self)@, q, now) is None,
            old(self)@.dom().finite(),
            removed == old(self)@.dom().len(),
    {
        let keys = entries_keys(&self.store);
        let ghost listed = key_views(keys@);
        let mut i: usize = 0;
        proof {
            assert forall|q: SkinQueryView| self@.contains_key(q) implies exists|j: int|
                0 <= j < listed.len() && #[trigger] listed[j] == q by {
                assert(listed.contains(q));
                let j = choose|j: int| 0 <= j < listed.len() && listed[j] == q;
                assert(listed[j] == q);
            }
            assert(self@.dom() =~= listed.to_set());
            vstd::seq_lib::seq_to_set_is_finite(listed);
            listed.unique_seq_to_set();
        }
        while i < keys.len()
            invariant
                i <= keys.len(),
                listed == key_views(keys@),
                forall|q: SkinQueryView|
                    self@.contains_key(q) ==> exists|j: int|
                        i <= j < listed.len() && #[trigger] listed[j] == q,
            decreases keys.len() - i,
        {
            let ghost before = self@;
            entries_remove(&mut self.store, &keys[i]);
            proof {
                assert(listed[i as int] == key_view(keys[i as int]));
                assert forall|q: SkinQueryView| self@.contains_key(q) implies exists|j: int|
                    i + 1 <= j < listed.len() && #[trigger] listed[j] == q by {
                    assert(before.contains_key(q));
                    let j = choose|j: int| i <= j < listed.len() && #[trigger] listed[j] == q;
                    assert(j != i);
                }
            }
            i += 1;
        }
        proof {
            assert(self@ =~= no_entries());
        }
        keys.len()
    }
}

/// An entry is served as it was stored for as long as it is fresh: from the
/// reading at which it was stored until the time to live has passed.
pub proof fn lemma_fresh_entry_is_served(
    entries: Map<SkinQueryView, CacheItemView>,
    query: SkinQueryView,
    data: Seq<u8>,
    stored: nat,
    now: nat,
)
    requires
        stored <= now <= stored + TTL_NANOS,
    ensures
        cached(entries.insert(query, CacheItemView { timestamp: stored, data }), query, now)
            == Some(data),
{
}

/// Storing an entry changes the answer to no other request.
pub proof fn lemma_save_leaves_others(
    entries: Map<SkinQueryView, CacheItemView>,
    query: SkinQueryView,
    item: CacheItemView,
    other: SkinQueryView,
    now: nat,
)
    requires
        other != query,
    ensures
        cached(entries.insert(query, item), other, now) == cached(entries, other, now),
{
}

/// Once the time to live has passed an entry is a miss, though it is still there.
pub proof fn lemma_stale_entry_is_a_miss(
    entries: Map<SkinQueryView, CacheItemView>,
    query: SkinQueryView,
    now: nat,
)
    requires
        entries.contains_key(query),
        now > entries[query].timestamp + TTL_NANOS,
    ensures
        cached(entries, query, now) is None,
{
}

/// After a flush every request is a miss, at every reading of the clock.
pub proof fn lemma_flushed_cache_misses(query: SkinQueryView, now: nat)
    ensures
        cached(no_entries(), query, now) is None,
{
}

} // verus!

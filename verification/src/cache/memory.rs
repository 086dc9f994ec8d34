//! In-memory response cache with TTL expiry.
//!
//! Entries live in a [`DashMap`] keyed by the full query URL. Expired
//! entries are evicted lazily (on read) or on request; when the cache is
//! full, the oldest entry makes room for a new one.
//!
//! Times are nanoseconds on the cache's monotonic clock; every time-reading
//! operation has a variant taking the time as an argument (`*_at`).

use std::time::{Duration, Instant};
use dashmap::DashMap;
use vstd::prelude::*;
use crate::json::{JsonValue, JsonView};
use crate::time::{as_nanos, duration_nanos, elapsed_since, from_secs, instant_now};

verus! {

// ── Entries ───────────────────────────────────────────────────────────────────

/// A cached value, when it was stored and how long it stays fresh.
#[derive(Debug)]
pub struct Entry {
    pub value: JsonValue,
    /// Nanoseconds on the cache's clock.
    pub inserted_at: u128,
    /// Nanoseconds.
    pub ttl: u128,
}

/// The mathematical value of an [`Entry`].
pub struct EntryView {
    pub value: JsonView,
    pub inserted_at: u128,
    pub ttl: u128,
}

impl View for Entry {
    type V = EntryView;

    open spec fn view(&self) -> EntryView {
        EntryView { value: self.value@, inserted_at: self.inserted_at, ttl: self.ttl }
    }
}

impl Clone for Entry {
    fn clone(&self) -> (r: Self)
        ensures
            r@ == self@,
    {
        Entry { value: self.value.deep_clone(), inserted_at: self.inserted_at, ttl: self.ttl }
    }
}

/// The time elapsed from `then` to `now`, zero if `now` is earlier.
pub open spec fn elapsed(then: u128, now: u128) -> int {
    if now >= then {
        now - then
    } else {
        0
    }
}

/// An entry has expired at `now` once more than its TTL has elapsed.
pub open spec fn expired(e: EntryView, now: u128) -> bool {
    elapsed(e.inserted_at, now) > e.ttl
}

impl Entry {
    /// Whether more than the entry's TTL has elapsed at `now`.
    pub fn is_expired(&self, now: u128) -> (res: bool)
        ensures
            res == expired(self@, now),
    {
        let e: u128 = if now >= self.inserted_at {
            now - self.inserted_at
        } else {
            0
        };
        e > self.ttl
    }

    /// Whether no more than the entry's TTL has elapsed at `now`.
    pub fn is_fresh(&self, now: u128) -> (res: bool)
        ensures
            res == !expired(self@, now),
    {
        !self.is_expired(now)
    }
}

// ── The store ─────────────────────────────────────────────────────────────────

/// `dashmap::DashMap`.
#[verifier::external_type_specification]
#[verifier::external_body]
#[verifier::reject_recursive_types(K)]
#[verifier::reject_recursive_types(V)]
#[verifier::reject_recursive_types(S)]
pub struct ExDashMap<K, V, S>(DashMap<K, V, S>);

/// A store with no entries.
pub open spec fn no_entries() -> Map<Seq<char>, EntryView> {
    Map::empty()
}

/// The entries a store holds, by key.
pub uninterp spec fn store_contents(m: DashMap<String, Entry>) -> Map<Seq<char>, EntryView>;

/// Calls `DashMap::new`: an empty map.
#[verifier::external_body]
fn store_new() -> (m: DashMap<String, Entry>)
    ensures
        store_contents(m) == no_entries(),
{
    DashMap::new()
}

/// Calls `DashMap::get` and clones the entry found under `key`.
#[verifier::external_body]
fn store_get(m: &DashMap<String, Entry>, key: &str) -> (res: Option<Entry>)
    ensures
        res is Some <==> store_contents(*m).dom().contains(key@),
        res matches Some(e) ==> store_contents(*m)[key@] == e@,
{
    m.get(key).map(|r| r.value().clone())
}

/// Calls `DashMap::insert`, which stores `e` under `key`, replacing any
/// entry there.
#[verifier::external_body]
fn store_insert(m: &mut DashMap<String, Entry>, key: String, e: Entry)
    ensures
        store_contents(*final(m)) == store_contents(*old(m)).insert(key@, e@),
{
    m.insert(key, e);
}

/// Calls `DashMap::remove`, which drops the entry under `key`, if any.
#[verifier::external_body]
fn store_remove(m: &mut DashMap<String, Entry>, key: &str)
    ensures
        store_contents(*final(m)) == store_contents(*old(m)).remove(key@),
{
    m.remove(key);
}

/// Calls `DashMap::clear`.
#[verifier::external_body]
fn store_clear(m: &mut DashMap<String, Entry>)
    ensures
        store_contents(*final(m)) == no_entries(),
{
    m.clear()
}

/// Calls `DashMap::len`: the number of entries.
#[verifier::external_body]
fn store_len(m: &DashMap<String, Entry>) -> (n: usize)
    ensures
        n == store_contents(*m).len(),
{
    m.len()
}

/// Calls `DashMap::is_empty`.
#[verifier::external_body]
fn store_is_empty(m: &DashMap<String, Entry>) -> (b: bool)
    ensures
        b == (store_contents(*m).len() == 0),
{
    m.is_empty()
}

/// Calls `DashMap::iter` and maps each entry to its key, insertion time and
/// TTL. The iteration visits every entry once, in an order that is not
/// specified.
#[verifier::external_body]
fn store_snapshot(m: &DashMap<String, Entry>) -> (res: Vec<(String, u128, u128)>)
    ensures
        res@.len() == store_contents(*m).len(),
        forall|i: int|
            0 <= i < res@.len() ==> store_contents(*m).dom().contains((#[trigger] res@[i]).0@)
                && store_contents(*m)[res@[i].0@].inserted_at == res@[i].1
                && store_contents(*m)[res@[i].0@].ttl == res@[i].2,
        forall|k: Seq<char>|
            store_contents(*m).dom().contains(k) ==> exists|i: int|
                0 <= i < res@.len() && (#[trigger] res@[i]).0@ == k,
        forall|i: int, j: int|
            0 <= i < j < res@.len() ==> (#[trigger] res@[i]).0@ != (#[trigger] res@[j]).0@,
{
    m.iter().map(|r| (r.key().clone(), r.value().inserted_at, r.value().ttl)).collect()
}

/// Calls `DashMap::retain` with [`Entry::is_fresh`] at `now` as the
/// predicate: the map keeps, unchanged, exactly the entries for which it
/// holds and drops the others.
#[verifier::external_body]
fn store_retain_fresh(m: &mut DashMap<String, Entry>, now: u128)
    ensures
        without_expired(store_contents(*old(m)), store_contents(*final(m)), now),
{
    m.retain(|_, e| e.is_fresh(now))
}

/// Evicts an entry with the earliest insertion time, if there is one.
fn evict_oldest(store: &mut DashMap<String, Entry>)
    requires
        store_contents(*old(store)).dom().finite(),
    ensures
        evicted_oldest(store_contents(*old(store)), store_contents(*final(store))),
{
    let snap = store_snapshot(store);
    let n = snap.len();
    if n == 0 {
        assert(store_contents(*old(store)).dom() =~= Set::<Seq<char>>::empty()) by {
            if exists|k: Seq<char>| store_contents(*old(store)).dom().contains(k) {
                let k = choose|k: Seq<char>| store_contents(*old(store)).dom().contains(k);
                assert(exists|i: int| 0 <= i < snap@.len() && (#[trigger] snap@[i]).0@ == k);
            }
        }
        return;
    }
    let mut best: usize = 0;
    let mut i: usize = 1;
    while i < n
        invariant
            n == snap@.len(),
            1 <= i <= n,
            best < n,
            forall|j: int| 0 <= j < i ==> snap@[best as int].1 <= (#[trigger] snap@[j]).1,
        decreases n - i,
    {
        if snap[i].1 < snap[best].1 {
            best = i;
        }
        i = i + 1;
    }
    let ghost c = store_contents(*old(store));
    let ghost k = snap@[best as int].0@;
    proof {
        assert(c.dom().contains(snap@[best as int].0@));
        assert forall|j: Seq<char>| #[trigger] c.dom().contains(j) implies c[k].inserted_at
            <= c[j].inserted_at by {
            let w = choose|w: int| 0 <= w < snap@.len() && (#[trigger] snap@[w]).0@ == j;
            assert(snap@[best as int].1 <= snap@[w].1);
        }
        assert(is_oldest(c, k));
    }
    store_remove(store, snap[best].0.as_str());
    assert(evicted_oldest(c, store_contents(*store)));
}

// ── Configuration ─────────────────────────────────────────────────────────────

/// Configuration for the response cache.
#[derive(Debug, Clone)]
pub struct CacheConfig {
    /// Default TTL for cached entries.
    pub ttl: Duration,
    /// Maximum number of entries to keep in the cache.
    /// The oldest entry is evicted when the limit is reached.
    pub max_entries: usize,
}

impl Default for CacheConfig {
    fn default() -> (c: Self)
        ensures
            duration_nanos(c.ttl) == 300_000_000_000,
            c.max_entries == 1000,
    {
        CacheConfig { ttl: from_secs(300), max_entries: 1000 }
    }
}

// ── Specification of the operations ───────────────────────────────────────────

/// The most entries a cache with limit `max` holds: `max`, or one when the
/// limit is zero (a new entry is always stored).
pub open spec fn capacity(max: usize) -> nat {
    if max == 0 {
        1
    } else {
        max as nat
    }
}

/// `k` is a key of `c` with the earliest insertion time.
pub open spec fn is_oldest(c: Map<Seq<char>, EntryView>, k: Seq<char>) -> bool {
    &&& c.dom().contains(k)
    &&& forall|j: Seq<char>| #[trigger] c.dom().contains(j) ==> c[k].inserted_at <= c[j].inserted_at
}

/// `after` is `before` with the oldest entry evicted (nothing, if empty).
pub open spec fn evicted_oldest(before: Map<Seq<char>, EntryView>, after: Map<Seq<char>, EntryView>) -> bool {
    if before.len() == 0 {
        after == before
    } else {
        exists|k: Seq<char>| is_oldest(before, k) && after == before.remove(k)
    }
}

/// `after` is the result of storing `e` under `key` in `before`, a cache
/// with limit `max`: when full, the oldest entry goes first.
pub open spec fn stored(
    before: Map<Seq<char>, EntryView>,
    after: Map<Seq<char>, EntryView>,
    key: Seq<char>,
    e: EntryView,
    max: usize,
) -> bool {
    if before.len() >= max {
        exists|mid: Map<Seq<char>, EntryView>|
            evicted_oldest(before, mid) && after == mid.insert(key, e)
    } else {
        after == before.insert(key, e)
    }
}

/// `res` and `after` are what a read of `key` at `now` gives and leaves
/// behind in `before`: a fresh entry's value; nothing for a missing key; an
/// expired entry is removed and nothing returned.
pub open spec fn read(
    before: Map<Seq<char>, EntryView>,
    after: Map<Seq<char>, EntryView>,
    key: Seq<char>,
    now: u128,
    res: Option<JsonView>,
) -> bool {
    if !before.dom().contains(key) {
        res is None && after == before
    } else if expired(before[key], now) {
        res is None && after == before.remove(key)
    } else {
        res == Some(before[key].value) && after == before
    }
}

/// `after` keeps exactly the entries of `before` that have not expired at
/// `now`.
pub open spec fn without_expired(
    before: Map<Seq<char>, EntryView>,
    after: Map<Seq<char>, EntryView>,
    now: u128,
) -> bool {
    &&& forall|k: Seq<char>|
        #[trigger] after.dom().contains(k) <==> (before.dom().contains(k) && !expired(
            before[k],
            now,
        ))
    &&& forall|k: Seq<char>| #[trigger] after.dom().contains(k) ==> after[k] == before[k]
}

/// The view of an optional JSON value.
pub open spec fn opt_json(o: Option<JsonValue>) -> Option<JsonView> {
    match o {
        Some(v) => Some(v@),
        None => None,
    }
}

// ── Cache ─────────────────────────────────────────────────────────────────────

/// In-memory RDAP response cache. Cache keys are the full query URL strings.
#[derive(Debug)]
pub struct MemoryCache {
    store: DashMap<String, Entry>,
    config: CacheConfig,
    origin: Instant,
}

impl MemoryCache {
    /// The entries of the cache, by key.
    pub closed spec fn contents(&self) -> Map<Seq<char>, EntryView> {
        store_contents(self.store)
    }

    /// The configuration of the cache.
    pub closed spec fn config(&self) -> CacheConfig {
        self.config
    }

    /// The cache holds finitely many entries, no more than its capacity.
    #[verifier::type_invariant]
    closed spec fn wf(&self) -> bool {
        &&& store_contents(self.store).dom().finite()
        &&& store_contents(self.store).len() <= capacity(self.config.max_entries)
    }

    /// Creates a cache with default configuration.
    pub fn new() -> (c: Self)
        ensures
            c.contents() == Map::<Seq<char>, EntryView>::empty(),
            duration_nanos(c.config().ttl) == 300_000_000_000,
            c.config().max_entries == 1000,
    {
        Self::with_config(CacheConfig::default())
    }

    /// Creates a cache with custom configuration.
    pub fn with_config(config: CacheConfig) -> (c: Self)
        ensures
            c.contents() == Map::<Seq<char>, EntryView>::empty(),
            c.config() == config,
    {
        MemoryCache { store: store_new(), config, origin: instant_now() }
    }

    /// Reads `key` at time `now`: the value if the entry exists and has not
    /// expired; an expired entry is removed.
    pub fn get_at(&mut self, key: &str, now: u128) -> (res: Option<JsonValue>)
        ensures
            read(old(self).contents(), final(self).contents(), key@, now, opt_json(res)),
            final(self).config() == old(self).config(),
            old(self).contents().dom().finite(),
            final(self).contents().dom().finite(),
    {
        proof {
            use_type_invariant(&*self);
        }
        match store_get(&self.store, key) {
            None => None,
            Some(e) => {
                if e.is_expired(now) {
                    let mut store = store_new();
                    std::mem::swap(&mut store, &mut self.store);
                    store_remove(&mut store, key);
                    self.store = store;
                    None
                } else {
                    Some(e.value)
                }
            },
        }
    }

    /// Retrieves a cached value if it exists and has not expired.
    pub fn get(&mut self, key: &str) -> (res: Option<JsonValue>)
        ensures
            exists|now: u128|
                read(old(self).contents(), final(self).contents(), key@, now, opt_json(res)),
            final(self).config() == old(self).config(),
            old(self).contents().dom().finite(),
            final(self).contents().dom().finite(),
    {
        let now = as_nanos(elapsed_since(&self.origin));
        self.get_at(key, now)
    }

    /// Stores `value` under `key` at time `now` with the given TTL, evicting
    /// the oldest entry first when the cache is full.
    pub fn set_with_ttl_at(&mut self, key: String, value: JsonValue, ttl: Duration, now: u128)
        ensures
            stored(
                old(self).contents(),
                final(self).contents(),
                key@,
                EntryView { value: value@, inserted_at: now, ttl: duration_nanos(ttl) },
                old(self).config().max_entries,
            ),
            final(self).config() == old(self).config(),
            final(self).contents().len() <= capacity(old(self).config().max_entries),
    {
        proof {
            use_type_invariant(&*self);
        }
        let ghost c0 = self.contents();
        let ghost v = value@;
        let ttl_nanos = as_nanos(ttl);
        let max = self.config.max_entries;
        let entry = Entry { value, inserted_at: now, ttl: ttl_nanos };
        let ghost ev = entry@;
        let mut store = store_new();
        std::mem::swap(&mut store, &mut self.store);
        if store_len(&store) >= max {
            evict_oldest(&mut store);
        }
        let ghost c1 = store_contents(store);
        store_insert(&mut store, key, entry);
        proof {
            if c0.len() >= max {
                if c0.len() == 0 {
                } else {
                    let k = choose|k: Seq<char>| is_oldest(c0, k) && c1 == c0.remove(k);
                    assert(c1.len() == c0.len() - 1);
                }
                assert(exists|mid: Map<Seq<char>, EntryView>|
                    evicted_oldest(c0, mid) && store_contents(store) == mid.insert(key@, ev));
            }
        }
        self.store = store;
    }

    /// Inserts a value with a custom TTL.
    pub fn set_with_ttl(&mut self, key: String, value: JsonValue, ttl: Duration)
        ensures
            exists|now: u128|
                stored(
                    old(self).contents(),
                    final(self).contents(),
                    key@,
                    EntryView { value: value@, inserted_at: now, ttl: duration_nanos(ttl) },
                    old(self).config().max_entries,
                ),
            final(self).config() == old(self).config(),
    {
        let now = as_nanos(elapsed_since(&self.origin));
        self.set_with_ttl_at(key, value, ttl, now);
    }

    /// Inserts a value with the default TTL.
    pub fn set(&mut self, key: String, value: JsonValue)
        ensures
            exists|now: u128|
                stored(
                    old(self).contents(),
                    final(self).contents(),
                    key@,
                    EntryView {
                        value: value@,
                        inserted_at: now,
                        ttl: duration_nanos(old(self).config().ttl),
                    },
                    old(self).config().max_entries,
                ),
            final(self).config() == old(self).config(),
    {
        let ttl = self.config.ttl;
        self.set_with_ttl(key, value, ttl);
    }

    /// Removes all entries from the cache.
    pub fn clear(&mut self)
        ensures
            final(self).contents() == Map::<Seq<char>, EntryView>::empty(),
            final(self).config() == old(self).config(),
    {
        let mut store = store_new();
        std::mem::swap(&mut store, &mut self.store);
        store_clear(&mut store);
        self.store = store;
    }

    /// Returns the number of entries currently in the cache
    /// (including potentially expired ones not yet evicted).
    pub fn len(&self) -> (n: usize)
        ensures
            n == self.contents().len(),
            n <= capacity(self.config().max_entries),
            self.contents().dom().finite(),
    {
        proof {
            use_type_invariant(self);
        }
        store_len(&self.store)
    }

    /// Returns `true` if the cache is empty.
    pub fn is_empty(&self) -> (b: bool)
        ensures
            b == (self.contents().len() == 0),
    {
        store_is_empty(&self.store)
    }

    /// Removes all entries expired at `now`.
    pub fn evict_expired_at(&mut self, now: u128)
        ensures
            without_expired(old(self).contents(), final(self).contents(), now),
            final(self).config() == old(self).config(),
    {
        proof {
            use_type_invariant(&*self);
        }
        let ghost c0 = self.contents();
        let mut store = store_new();
        std::mem::swap(&mut store, &mut self.store);
        store_retain_fresh(&mut store, now);
        proof {
            assert(store_contents(store).dom().subset_of(c0.dom()));
            vstd::set_lib::lemma_len_subset(store_contents(store).dom(), c0.dom());
        }
        self.store = store;
    }

    /// Removes all expired entries. Call periodically to reclaim memory.
    pub fn evict_expired(&mut self)
        ensures
            exists|now: u128| without_expired(old(self).contents(), final(self).contents(), now),
            final(self).config() == old(self).config(),
    {
        let now = as_nanos(elapsed_since(&self.origin));
        self.evict_expired_at(now);
    }
}

impl Default for MemoryCache {
    fn default() -> (c: Self)
        ensures
            c.contents() == Map::<Seq<char>, EntryView>::empty(),
    {
        Self::new()
    }
}

// ── Laws ──────────────────────────────────────────────────────────────────────

/// A value stored under a key is read back while it is fresh: whatever the
/// store evicted to make room, the read gives the value and leaves the cache
/// as it is.
pub proof fn law_read_after_store(
    before: Map<Seq<char>, EntryView>,
    stored_state: Map<Seq<char>, EntryView>,
    key: Seq<char>,
    e: EntryView,
    max: usize,
    now: u128,
    after: Map<Seq<char>, EntryView>,
    res: Option<JsonView>,
)
    requires
        stored(before, stored_state, key, e, max),
        read(stored_state, after, key, now, res),
        !expired(e, now),
    ensures
        res == Some(e.value),
        after == stored_state,
{
    if before.len() >= max {
        let mid = choose|mid: Map<Seq<char>, EntryView>|
            evicted_oldest(before, mid) && stored_state == mid.insert(key, e);
        assert(stored_state[key] == e);
    }
}

/// A stored value that has expired is never read back; the read removes it.
pub proof fn law_expired_not_read(
    before: Map<Seq<char>, EntryView>,
    stored_state: Map<Seq<char>, EntryView>,
    key: Seq<char>,
    e: EntryView,
    max: usize,
    now: u128,
    after: Map<Seq<char>, EntryView>,
    res: Option<JsonView>,
)
    requires
        stored(before, stored_state, key, e, max),
        read(stored_state, after, key, now, res),
        expired(e, now),
    ensures
        res is None,
        !after.dom().contains(key),
{
    if before.len() >= max {
        let mid = choose|mid: Map<Seq<char>, EntryView>|
            evicted_oldest(before, mid) && stored_state == mid.insert(key, e);
        assert(stored_state[key] == e);
    }
}

/// Nothing is read from a cleared cache.
pub proof fn law_cleared_reads_nothing(
    key: Seq<char>,
    now: u128,
    after: Map<Seq<char>, EntryView>,
    res: Option<JsonView>,
)
    requires
        read(no_entries(), after, key, now, res),
    ensures
        res is None,
{
}

} // verus!

//! Compaction of long keys into small integer ids, so that a key fits into a
//! token: a forward map from key to id and a reverse map from id to key, both
//! time- and capacity-bounded caches, and a counter that hands out ids
//! cyclically from 1 to the capacity.
//!
//! The store is used through `&mut self`, so one caller at a time allocates:
//! two callers can never both allocate an id for the same new key.
use moka::sync::Cache;
use crate::command::{opt_view, Command, CommandModel};
use crate::text::{chars_of, parse_u64, u64_of};
use std::time::Duration;
use vstd::prelude::*;

verus! {

/// moka's synchronous cache, carried as an opaque value.
#[verifier::external_type_specification]
#[verifier::external_body]
#[verifier::reject_recursive_types(K)]
#[verifier::reject_recursive_types(V)]
#[verifier::reject_recursive_types(S)]
pub struct ExCache<K, V, S>(Cache<K, V, S>);

/// A cache from keys to ids.
pub type KeyIdCache = Cache<String, u64>;

/// A cache from ids to keys.
pub type IdKeyCache = Cache<u64, String>;

/// The latest id stored for each key through this handle of the cache.
pub uninterp spec fn key_ids(c: Cache<String, u64>) -> Map<Seq<char>, u64>;

/// The latest key stored for each id through this handle of the cache.
pub uninterp spec fn id_keys(c: Cache<u64, String>) -> Map<u64, Seq<char>>;

/// The longest time to live, in minutes, that moka accepts (1000 years).
pub const MAX_TTL_MINUTES: u64 = 525600000;

/// Relies on moka's `CacheBuilder::max_capacity`, `time_to_live` and `build`:
/// a new cache holds nothing; `build` panics on a time to live over 1000
/// years.
#[verifier::external_body]
fn new_key_id_cache(capacity: u64, ttl_secs: u64) -> (cache: KeyIdCache)
    requires
        ttl_secs <= MAX_TTL_MINUTES * 60,
    ensures
        forall|k: Seq<char>| !#[trigger] key_ids(cache).contains_key(k),
{
    Cache::builder().max_capacity(capacity).time_to_live(Duration::from_secs(ttl_secs)).build()
}

/// Relies on moka's `CacheBuilder::max_capacity`, `time_to_live` and `build`,
/// as `new_key_id_cache` does.
#[verifier::external_body]
fn new_id_key_cache(capacity: u64, ttl_secs: u64) -> (cache: IdKeyCache)
    requires
        ttl_secs <= MAX_TTL_MINUTES * 60,
    ensures
        forall|i: u64| !#[trigger] id_keys(cache).contains_key(i),
{
    Cache::builder().max_capacity(capacity).time_to_live(Duration::from_secs(ttl_secs)).build()
}

/// Relies on moka's `Cache::get`: a clone of the value last inserted for the
/// key, or nothing where the entry expired, was evicted or never was.
#[verifier::external_body]
fn lookup_id(c: &Cache<String, u64>, key: &str) -> (r: Option<u64>)
    ensures
        r is None || (key_ids(*c).contains_key(key@) && r == Some(key_ids(*c)[key@])),
{
    c.get(key)
}

/// Relies on moka's `Cache::get`, as `lookup_id` does.
#[verifier::external_body]
fn lookup_key(c: &Cache<u64, String>, id: u64) -> (r: Option<String>)
    ensures
        r is None || (id_keys(*c).contains_key(id) && r->0@ == id_keys(*c)[id]),
{
    c.get(&id)
}

/// Relies on moka's `Cache::insert`: the entry replaces any earlier one for
/// the key.
#[verifier::external_body]
fn store_id(c: &mut Cache<String, u64>, key: String, id: u64)
    ensures
        key_ids(*final(c)) == key_ids(*old(c)).insert(key@, id),
{
    c.insert(key, id)
}

/// Relies on moka's `Cache::insert`, as `store_id` does.
#[verifier::external_body]
fn store_key(c: &mut Cache<u64, String>, id: u64, key: String)
    ensures
        id_keys(*final(c)) == id_keys(*old(c)).insert(id, key@),
{
    c.insert(id, key)
}

/// The id that follows `current`: one more, or 1 once the capacity is reached.
pub open spec fn next_id(current: u64, capacity: u64) -> u64 {
    if current >= capacity {
        1
    } else {
        (current + 1) as u64
    }
}

/// The counter after `n` allocations from a fresh store.
pub open spec fn counter_after(capacity: u64, n: nat) -> u64
    decreases n,
{
    if n == 0 {
        0
    } else {
        next_id(counter_after(capacity, (n - 1) as nat), capacity)
    }
}

/// What the store holds: the entries stored in each direction, the last id
/// handed out, and the capacity.
pub struct KeyStoreView {
    pub forward: Map<Seq<char>, u64>,
    pub reverse: Map<u64, Seq<char>>,
    pub counter: u64,
    pub capacity: u64,
}

/// What `key_to_id` does: where the key's entry is found, its id comes back
/// and nothing changes; else the next id is allocated and stored in both
/// directions.
pub open spec fn key_to_id_post(s0: KeyStoreView, s1: KeyStoreView, key: Seq<char>, id: u64) -> bool {
    ||| s0.forward.contains_key(key) && id == s0.forward[key] && s1 == s0
    ||| id == next_id(s0.counter, s0.capacity) && s1 == (KeyStoreView {
        forward: s0.forward.insert(key, id),
        reverse: s0.reverse.insert(id, key),
        counter: id,
        capacity: s0.capacity,
    })
}

/// What `id_to_key` may give: nothing, or the key stored for the id.
pub open spec fn id_to_key_post(s: KeyStoreView, id: u64, r: Option<Seq<char>>) -> bool {
    r is None || (s.reverse.contains_key(id) && r == Some(s.reverse[id]))
}

/// The bijective key/id cache.
pub struct KeyStore {
    forward: Cache<String, u64>,
    reverse: Cache<u64, String>,
    counter: u64,
    capacity: u64,
}

impl View for KeyStore {
    type V = KeyStoreView;

    closed spec fn view(&self) -> KeyStoreView {
        KeyStoreView {
            forward: key_ids(self.forward),
            reverse: id_keys(self.reverse),
            counter: self.counter,
            capacity: self.capacity,
        }
    }
}

impl KeyStore {
    /// An empty store whose ids run from 1 to `capacity`, each map holding at
    /// most `capacity` entries for `ttl_minutes` after insertion.
    pub fn new(capacity: u64, ttl_minutes: u64) -> (r: KeyStore)
        requires
            ttl_minutes <= MAX_TTL_MINUTES,
        ensures
            r@ == (KeyStoreView {
                forward: Map::empty(),
                reverse: Map::empty(),
                counter: 0,
                capacity,
            }),
    {
        let ttl_secs = ttl_minutes * 60;
        let r = KeyStore {
            forward: new_key_id_cache(capacity, ttl_secs),
            reverse: new_id_key_cache(capacity, ttl_secs),
            counter: 0,
            capacity,
        };
        assert(r@.forward =~= Map::empty());
        assert(r@.reverse =~= Map::empty());
        r
    }

    /// Hands out the next id: one more than the last, or 1 after the capacity.
    pub fn increment_cyclic(&mut self) -> (r: u64)
        ensures
            r == next_id(old(self)@.counter, old(self)@.capacity),
            final(self)@ == (KeyStoreView { counter: r, ..old(self)@ }),
    {
        let next = if self.counter >= self.capacity {
            1
        } else {
            self.counter + 1
        };
        self.counter = next;
        next
    }

    /// The id of a key: the one stored for it where its entry is still there,
    /// else a newly allocated one, stored in both directions.
    pub fn key_to_id(&mut self, key: &str) -> (r: u64)
        ensures
            key_to_id_post(old(self)@, final(self)@, key@, r),
    {
        match lookup_id(&self.forward, key) {
            Some(id) => id,
            None => {
                let id = self.increment_cyclic();
                store_id(&mut self.forward, key.to_string(), id);
                store_key(&mut self.reverse, id, key.to_string());
                id
            },
        }
    }

    /// The key stored for an id, where its entry is still there.
    pub fn id_to_key(&self, id: u64) -> (r: Option<String>)
        ensures
            id_to_key_post(self@, id, opt_view(r)),
    {
        lookup_key(&self.reverse, id)
    }

    /// Puts the key back into a decoded search command, whose key field holds
    /// the compact id: the stored key where the id is still resolvable, else
    /// no key (a search over everything). Other commands pass unchanged.
    pub fn resolve_search_key(&self, cmd: Command) -> (r: Command)
        ensures
            cmd@ matches CommandModel::Search(Some(raw), t, p) ==> (r@ matches CommandModel::Search(
                k,
                t2,
                p2,
            ) && t2 == t && p2 == p && (u64_of(raw) matches Some(id) ==> id_to_key_post(
                self@,
                id,
                k,
            )) && (u64_of(raw) is None ==> k is None)),
            !(cmd@ matches CommandModel::Search(Some(_), _, _)) ==> r@ == cmd@,
    {
        match cmd {
            Command::Search(Some(raw), t, p) => {
                let key = match parse_u64(&chars_of(raw.as_str())) {
                    Some(id) => self.id_to_key(id),
                    None => None,
                };
                Command::Search(key, t, p)
            },
            other => other,
        }
    }
}

/// Cyclic allocation: from a fresh store with capacity at least 1, the first
/// `capacity` allocations give 1, 2, ..., `capacity` in turn, the next gives
/// 1 again, and no allocation ever gives 0.
pub proof fn lemma_cyclic_allocation(capacity: u64, n: nat)
    requires
        capacity >= 1,
    ensures
        n <= capacity ==> counter_after(capacity, n) == n,
        counter_after(capacity, capacity as nat + 1) == 1,
        n >= 1 ==> counter_after(capacity, n) >= 1,
    decreases n,
{
    if n > 0 {
        lemma_cyclic_allocation(capacity, (n - 1) as nat);
    }
    lemma_counter_prefix(capacity, capacity as nat);
}

proof fn lemma_counter_prefix(capacity: u64, n: nat)
    requires
        capacity >= 1,
        n <= capacity,
    ensures
        counter_after(capacity, n) == n,
    decreases n,
{
    if n > 0 {
        lemma_counter_prefix(capacity, (n - 1) as nat);
    }
}

/// Between wraps the ids rise by exactly one, and no id is ever 0.
pub proof fn lemma_next_id_step(current: u64, capacity: u64)
    ensures
        next_id(current, capacity) >= 1,
        current < capacity ==> next_id(current, capacity) == current + 1,
        current >= capacity ==> next_id(current, capacity) == 1,
{
}

/// Compaction idempotence: after `key_to_id(k)` gave `id1`, the key maps to
/// `id1`; a second call for `k` gives `id1` again unless the entry was
/// evicted in between and a fresh id was allocated, and it certainly does
/// where it leaves the store as it was; and where the store agreed with
/// itself on `k` before the first call, `id_to_key(id1)` gives `k` whenever
/// it gives anything.
pub proof fn lemma_compaction_idempotent(
    s0: KeyStoreView,
    s1: KeyStoreView,
    s2: KeyStoreView,
    k: Seq<char>,
    id1: u64,
    id2: u64,
    back: Option<Seq<char>>,
)
    requires
        key_to_id_post(s0, s1, k, id1),
        key_to_id_post(s1, s2, k, id2),
        id_to_key_post(s1, id1, back),
    ensures
        s1.forward.contains_key(k) && s1.forward[k] == id1,
        id2 == id1 || (id2 == next_id(s1.counter, s1.capacity) && s2.counter == id2),
        s2 == s1 ==> id2 == id1,
        (s0.forward.contains_key(k) ==> s0.reverse.contains_key(s0.forward[k]) && s0.reverse[s0.forward[k]] == k)
            ==> (back is None || back == Some(k)),
{
    if s2 == s1 && !(s1.forward.contains_key(k) && id2 == s1.forward[k] && s2 == s1) {
        assert(s1.forward.insert(k, id2)[k] == id2);
    }
}

} // verus!

//! A time- and capacity-bounded cache from texts to texts, such as the
//! one-shot download tokens that map to file paths.
use crate::command::opt_view;
use crate::keystore::MAX_TTL_MINUTES;
use moka::sync::Cache;
use std::time::Duration;
use vstd::prelude::*;

verus! {

/// The latest value stored for each key through this handle of the cache.
pub uninterp spec fn text_entries(c: Cache<String, String>) -> Map<Seq<char>, Seq<char>>;

/// Relies on moka's `CacheBuilder::max_capacity`, `time_to_live` and `build`:
/// a new cache holds nothing; `build` panics on a time to live over 1000
/// years.
#[verifier::external_body]
fn new_text_cache(capacity: u64, ttl_secs: u64) -> (cache: Cache<String, String>)
    requires
        ttl_secs <= MAX_TTL_MINUTES * 60,
    ensures
        forall|k: Seq<char>| !#[trigger] text_entries(cache).contains_key(k),
{
    Cache::builder().max_capacity(capacity).time_to_live(Duration::from_secs(ttl_secs)).build()
}

/// Relies on moka's `Cache::get`: a clone of the value last inserted for the
/// key, or nothing where the entry expired, was evicted or never was.
#[verifier::external_body]
fn lookup_text(c: &Cache<String, String>, key: &str) -> (r: Option<String>)
    ensures
        r is None || (text_entries(*c).contains_key(key@) && r->0@ == text_entries(*c)[key@]),
{
    c.get(key)
}

/// Relies on moka's `Cache::insert`: the entry replaces any earlier one for
/// the key, with a fresh time to live.
#[verifier::external_body]
fn store_text(c: &mut Cache<String, String>, key: String, value: String)
    ensures
        text_entries(*final(c)) == text_entries(*old(c)).insert(key@, value@),
{
    c.insert(key, value)
}

/// A cache whose entries live a fixed time from insertion and are evicted
/// beyond a capacity.
pub struct TextCache {
    cache: Cache<String, String>,
}

impl View for TextCache {
    type V = Map<Seq<char>, Seq<char>>;

    closed spec fn view(&self) -> Map<Seq<char>, Seq<char>> {
        text_entries(self.cache)
    }
}

impl TextCache {
    /// An empty cache of at most `capacity` entries, each kept `ttl_minutes`.
    pub fn new(capacity: u64, ttl_minutes: u64) -> (r: TextCache)
        requires
            ttl_minutes <= MAX_TTL_MINUTES,
        ensures
            r@ == Map::<Seq<char>, Seq<char>>::empty(),
    {
        let r = TextCache { cache: new_text_cache(capacity, ttl_minutes * 60) };
        assert(r@ =~= Map::<Seq<char>, Seq<char>>::empty());
        r
    }

    /// Stores a value, replacing any earlier one, with a fresh time to live.
    pub fn put(&mut self, key: &str, value: String)
        ensures
            final(self)@ == old(self)@.insert(key@, value@),
    {
        store_text(&mut self.cache, key.to_string(), value)
    }

    /// The value last stored for the key, where its entry is still there.
    pub fn get(&self, key: &str) -> (r: Option<String>)
        ensures
            r is None || (self@.contains_key(key@) && opt_view(r) == Some(self@[key@])),
    {
        lookup_text(&self.cache, key)
    }
}

} // verus!

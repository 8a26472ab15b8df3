//! A short-lived, in-memory cache of search hits, keyed by hit id.
use vstd::prelude::*;
use std::time::Duration;
use moka::sync::Cache;
use crate::error::CacheError;
use crate::model::SearchHit;
use crate::text::same_text;

verus! {

/// moka's concurrent cache.
#[verifier::external_type_specification]
#[verifier::external_body]
#[verifier::reject_recursive_types(K)]
#[verifier::reject_recursive_types(V)]
#[verifier::reject_recursive_types(S)]
pub struct ExMokaCache<K, V, S>(Cache<K, V, S>);

/// `Cache::clone` makes another handle on the same shared cache; nothing is
/// stated of it.
pub assume_specification<K, V, S>[ <Cache<K, V, S> as Clone>::clone ](cache: &Cache<K, V, S>) -> Cache<K, V, S>;

/// The longest entry lifetime that moka accepts: 1000 years of 365 days.
pub const MAX_TTL_SECS: u64 = 31_536_000_000;

/// The lifetime of entries, in seconds, that a cache was built with: what its
/// `policy().time_to_live()` reports.
pub uninterp spec fn cache_ttl_of(cache: Cache<String, SearchHit>) -> nat;

/// Calls `Cache::builder()`, `CacheBuilder::time_to_live` with
/// `Duration::from_secs(ttl_secs)` and `CacheBuilder::build`: an empty cache
/// whose entries expire `ttl_secs` seconds after they were inserted. The
/// builder is used in one piece because `build` panics when the lifetime
/// exceeds 1000 years, which `requires` rules out. The contract claims that
/// the cache was built with that lifetime; nothing is stated of its contents,
/// which change with time and through shared references.
#[verifier::external_body]
fn cache_with_ttl(ttl_secs: u64) -> (r: Cache<String, SearchHit>)
    requires
        ttl_secs <= MAX_TTL_SECS,
    ensures
        cache_ttl_of(r) == ttl_secs,
{
    Cache::builder().time_to_live(Duration::from_secs(ttl_secs)).build()
}

/// Calls `Cache::insert`. The cache of hits files every hit under its own id,
/// which `requires` fixes. Nothing is stated of the effect: the cache is
/// shared and its entries expire, so no later lookup is promised to find it.
#[verifier::external_body]
fn cache_insert(cache: &Cache<String, SearchHit>, key: String, value: SearchHit)
    requires
        key@ == value.id@,
{
    cache.insert(key, value)
}

/// Calls `Cache::get`. Nothing is stated of the result: whether an entry is
/// still there depends on time and on the other users of the cache.
#[verifier::external_body]
fn cache_get(cache: &Cache<String, SearchHit>, key: &str) -> Option<SearchHit> {
    cache.get(key)
}

/// The hits of recent searches, by id, for a limited time.
#[derive(Clone)]
pub struct HitCache {
    inner: Cache<String, SearchHit>,
}

/// The answer to a lookup of `id`, given what the cache held under that key:
/// the hit, when it is the hit with that id, else `NotFound(id)`. Since
/// `HitCache::insert` stores every hit under its own id, a hit found under
/// `id` always has that id.
pub fn lookup_outcome(found: Option<SearchHit>, id: &str) -> (r: Result<SearchHit, CacheError>)
    ensures
        match found {
            Some(h) => if h.id@ == id@ {
                (r matches Ok(x) && x == h)
            } else {
                (r matches Err(CacheError::NotFound(s)) && s@ == id@)
            },
            None => (r matches Err(CacheError::NotFound(s)) && s@ == id@),
        },
{
    match found {
        Some(hit) => {
            if same_text(hit.id.as_str(), id) {
                Ok(hit)
            } else {
                Err(CacheError::NotFound(id.to_owned()))
            }
        },
        None => Err(CacheError::NotFound(id.to_owned())),
    }
}

impl HitCache {
    /// How long, in seconds, entries of this cache live.
    pub closed spec fn ttl(self) -> nat {
        cache_ttl_of(self.inner)
    }

    /// An empty cache whose entries live for `ttl_secs` seconds.
    pub fn new(ttl_secs: u64) -> (c: Self)
        requires
            ttl_secs <= MAX_TTL_SECS,
        ensures
            c.ttl() == ttl_secs,
    {
        HitCache { inner: cache_with_ttl(ttl_secs) }
    }

    /// Remembers `hit` under its id.
    pub fn insert(&self, hit: SearchHit) {
        let key = hit.id.clone();
        cache_insert(&self.inner, key, hit)
    }

    /// The hit remembered under `id`, which is the hit with that id, or
    /// `NotFound` with that id.
    pub fn get(&self, id: &str) -> (r: Result<SearchHit, CacheError>)
        ensures
            r matches Ok(h) ==> h.id@ == id@,
            r matches Err(e) ==> (e matches CacheError::NotFound(s) && s@ == id@),
    {
        lookup_outcome(cache_get(&self.inner, id), id)
    }
}

} // verus!

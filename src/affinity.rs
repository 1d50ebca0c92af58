//! The sticky-affinity cache: a bounded map from a request fingerprint to the
//! token of the credential that served it, kept by moka's synchronous cache.

use vstd::prelude::*;

verus! {

/// Number of fingerprints the affinity cache is built to hold.
pub const AFFINITY_CAPACITY: u64 = 1000;

/// Seconds an affinity entry may stay unread before it expires.
pub const AFFINITY_IDLE_SECS: u64 = 3600;

#[verifier::external_type_specification]
#[verifier::external_body]
#[verifier::reject_recursive_types(K)]
#[verifier::reject_recursive_types(V)]
#[verifier::reject_recursive_types(S)]
pub struct ExCache<K, V, S>(moka::sync::Cache<K, V, S>);

/// The affinity cache: fingerprint to credential token.
pub type AffinityCache = moka::sync::Cache<u64, String>;

/// For each fingerprint, the token that was last inserted for it. An entry may
/// have been evicted or have expired since; a lookup then misses.
pub uninterp spec fn affinity_log(c: moka::sync::Cache<u64, String>) -> Map<u64, Seq<char>>;

/// The maximum capacity the cache was built with.
pub uninterp spec fn affinity_capacity(c: moka::sync::Cache<u64, String>) -> nat;

/// The idle time, in seconds, the cache was built with: an entry unread for
/// that long expires.
pub uninterp spec fn affinity_idle(c: moka::sync::Cache<u64, String>) -> nat;

/// Relies on moka's `CacheBuilder` (`max_capacity`, `time_to_idle`, `build`):
/// a new cache is empty and keeps the capacity and idle time it was given. `build` panics
/// when the idle time is over a thousand years.
#[verifier::external_body]
pub(crate) fn new_affinity_cache(capacity: u64, idle_secs: u64) -> (r: AffinityCache)
    requires
        idle_secs <= 31_536_000_000,
    ensures
        affinity_log(r).dom() == Set::<u64>::empty(),
        affinity_capacity(r) == capacity as nat,
        affinity_idle(r) == idle_secs as nat,
{
    moka::sync::Cache::builder()
        .max_capacity(capacity)
        .time_to_idle(std::time::Duration::from_secs(idle_secs))
        .build()
}

/// Relies on moka's `Cache::get`: it returns a clone of the value stored for the
/// key, or nothing once the entry was evicted or expired. Values are only ever
/// replaced by `insert`, so a hit is the last token inserted for the key.
#[verifier::external_body]
pub(crate) fn affinity_get(c: &moka::sync::Cache<u64, String>, key: u64) -> (r: Option<String>)
    ensures
        r is Some ==> affinity_log(*c).contains_key(key) && r->0@ == affinity_log(*c)[key],
{
    c.get(&key)
}

/// Relies on moka's `Cache::insert`: the value for the key is set (or replaced),
/// and the cache keeps its configured capacity and idle time.
#[verifier::external_body]
pub(crate) fn affinity_insert(c: &mut moka::sync::Cache<u64, String>, key: u64, token: String)
    ensures
        affinity_log(*final(c)) == affinity_log(*old(c)).insert(key, token@),
        affinity_capacity(*final(c)) == affinity_capacity(*old(c)),
        affinity_idle(*final(c)) == affinity_idle(*old(c)),
{
    c.insert(key, token)
}

} // verus!

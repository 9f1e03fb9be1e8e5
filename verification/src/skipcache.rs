//! The loop-prevention cache: a bounded least-recently-used mapping from
//! (device, inode) to the ctime observed when the daemon itself wrote the
//! file.  An event is suppressed only while the file's current ctime still
//! equals the cached one.
//!
//! The cache is the `lru` crate's `LruCache`; what it holds is named by
//! [`skip_contents`], and the operations the watcher uses are specified
//! against that name.

use vstd::prelude::*;

verus! {

#[verifier::external_type_specification]
#[verifier::external_body]
#[verifier::reject_recursive_types(K)]
#[verifier::reject_recursive_types(V)]
#[verifier::reject_recursive_types(S)]
pub struct ExLruCache<K, V, S>(lru::LruCache<K, V, S>);

#[verifier::external_type_specification]
#[verifier::external_body]
pub struct ExDefaultHasher(lru::DefaultHasher);

/// The cache type the watcher uses: file identity (device, inode) to the
/// ctime recorded at the daemon's own write.
pub type SkipCache = lru::LruCache<(u64, u64), i64>;

/// The mapping a skip cache currently holds.
pub uninterp spec fn skip_contents(c: SkipCache) -> Map<(u64, u64), i64>;

/// The capacity the skip cache was created with.
pub uninterp spec fn skip_cap(c: SkipCache) -> nat;

/// The cache holds no mapping at all.
pub open spec fn skip_empty(c: SkipCache) -> bool {
    skip_contents(c) == Map::<(u64, u64), i64>::empty()
}

/// Relies on lru::LruCache::new: a new cache is empty and holds at most
/// `cap` entries.
#[verifier::external_body]
pub fn skip_cache_new(cap: usize) -> (r: SkipCache)
    requires
        cap > 0,
    ensures
        skip_empty(r),
        skip_cap(r) == cap,
{
    lru::LruCache::new(std::num::NonZeroUsize::new(cap).unwrap())
}

/// Relies on lru::LruCache::put: afterwards the key maps to the value;
/// every other mapping was already present with the same value (at most
/// one least-recently-used entry is dropped to stay within capacity).
#[verifier::external_body]
pub fn skip_cache_put(c: &mut SkipCache, key: (u64, u64), val: i64)
    ensures
        skip_contents(*final(c)).contains_key(key),
        skip_contents(*final(c))[key] == val,
        forall|k2|
            k2 != key && #[trigger] skip_contents(*final(c)).contains_key(k2) ==> skip_contents(*old(c)).contains_key(k2) && skip_contents(*final(c))[k2] == skip_contents(*old(c))[k2],
        skip_cap(*final(c)) == skip_cap(*old(c)),
{
    c.put(key, val);
}

/// Relies on lru::LruCache::get: the cached value for the key, if any.
/// The lookup refreshes the entry's recency but changes no mapping.
#[verifier::external_body]
pub fn skip_cache_get(c: &mut SkipCache, key: (u64, u64)) -> (r: Option<i64>)
    ensures
        skip_contents(*final(c)) == skip_contents(*old(c)),
        skip_cap(*final(c)) == skip_cap(*old(c)),
        r == (if skip_contents(*old(c)).contains_key(key) {
            Some(skip_contents(*old(c))[key])
        } else {
            None::<i64>
        }),
{
    c.get(&key).copied()
}

} // verus!

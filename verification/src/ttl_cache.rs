//! A bounded cache whose entries expire: what the proxy remembers of the
//! users it has looked up.

use vstd::prelude::*;
use quick_cache::sync::Cache;
use std::sync::Arc;

verus! {

/// What the proxy knows of the user behind an API key.
#[derive(Clone, Copy, Debug, PartialEq, Eq, Structural)]
pub struct UserCacheValue {
    /// Until when this may be used, in milliseconds.
    pub expires_at: u64,
    /// The id of the user; 0 where the key is unknown.
    pub user_id: u64,
    /// The requests per period that the user may make; `None` for no limit.
    pub user_count_per_period: Option<u64>,
}

#[verifier::external_type_specification]
#[verifier::external_body]
#[verifier::reject_recursive_types(Key)]
#[verifier::reject_recursive_types(Val)]
#[verifier::reject_recursive_types(We)]
#[verifier::reject_recursive_types(B)]
#[verifier::reject_recursive_types(L)]
pub struct ExCache<Key, Val, We, B, L>(Cache<Key, Val, We, B, L>);

#[verifier::external_type_specification]
#[verifier::external_body]
pub struct ExUnitWeighter(quick_cache::UnitWeighter);

#[verifier::external_type_specification]
#[verifier::external_body]
pub struct ExDefaultHashBuilder(quick_cache::DefaultHashBuilder);

#[verifier::external_type_specification]
#[verifier::external_body]
#[verifier::reject_recursive_types(Key)]
#[verifier::reject_recursive_types(Val)]
pub struct ExDefaultLifecycle<Key, Val>(quick_cache::sync::DefaultLifecycle<Key, Val>);

/// The bounded store behind the cache.
pub type TtlStore = Cache<u128, UserCacheValue>;

/// The entries of the cache as the contracts see them.
pub type TtlEntries = Map<u128, UserCacheValue>;

/// What a store holds.
pub uninterp spec fn ttl_entries(c: TtlStore) -> TtlEntries;

/// The value under `key`, if there is one.
pub open spec fn stored(entries: TtlEntries, key: u128) -> Option<UserCacheValue> {
    if entries.contains_key(key) {
        Some(entries[key])
    } else {
        None
    }
}

/// What an insertion into a bounded store may leave: every entry that is
/// there afterwards is the new one or was there before, unchanged. Which of
/// the entries had to go, the new one included, is up to the store.
pub open spec fn within(after: TtlEntries, before: TtlEntries, key: u128, val: UserCacheValue) -> bool {
    forall|k: u128| #[trigger]
        after.contains_key(k) ==> if k == key {
            after[k] == val
        } else {
            before.contains_key(k) && after[k] == before[k]
        }
}

/// `Cache::new`: the store it makes holds nothing.
#[verifier::external_body]
fn store_new(items_capacity: usize) -> (c: TtlStore)
    ensures
        ttl_entries(c) == TtlEntries::empty(),
{
    Cache::new(items_capacity)
}

/// `Cache::with_weighter` with the unit weighter: the store it makes holds
/// nothing.
#[verifier::external_body]
fn store_with_weights(estimated_items_capacity: usize, weight_capacity: u64) -> (c: TtlStore)
    ensures
        ttl_entries(c) == TtlEntries::empty(),
{
    Cache::with_weighter(estimated_items_capacity, weight_capacity, quick_cache::UnitWeighter)
}

/// `Cache::get`: a copy of the value under the key, or `None` where the
/// store has none.
#[verifier::external_body]
fn store_get(c: &TtlStore, key: &u128) -> (r: Option<UserCacheValue>)
    ensures
        r == stored(ttl_entries(*c), *key),
{
    c.get(key)
}

/// `Cache::insert`: afterwards the store holds nothing but the new entry
/// and entries that it held before. A key that the store holds is written
/// over in place and stays. For a key that it does not hold the store
/// evicts as it sees fit, and may give up the new entry at once.
#[verifier::external_body]
fn store_insert(c: &mut TtlStore, key: u128, val: UserCacheValue)
    ensures
        within(ttl_entries(*final(c)), ttl_entries(*old(c)), key, val),
        ttl_entries(*old(c)).contains_key(key) ==> ttl_entries(*final(c)).contains_key(key),
{
    c.insert(key, val)
}

/// `Cache::remove`: afterwards the key holds nothing and every other key
/// what it held; it is told whether the key held a value.
#[verifier::external_body]
fn store_remove(c: &mut TtlStore, key: &u128) -> (removed: bool)
    ensures
        ttl_entries(*final(c)) == ttl_entries(*old(c)).remove(*key),
        removed == ttl_entries(*old(c)).contains_key(*key),
{
    c.remove(key).is_some()
}

/// A value is live at `now` while its time has not passed.
pub open spec fn live(val: UserCacheValue, now: u64) -> bool {
    val.expires_at >= now
}

/// When a value that is stored at `now` expires.
pub open spec fn expiry(now: u64, ttl: u64) -> u64 {
    if now + ttl <= u64::MAX {
        (now + ttl) as u64
    } else {
        u64::MAX
    }
}

/// The store of the cache, which only the cache reaches into.
pub struct UserStore {
    cache: TtlStore,
}

impl View for UserStore {
    type V = TtlEntries;

    closed spec fn view(&self) -> TtlEntries {
        ttl_entries(self.cache)
    }
}

/// What an insertion came to.
#[derive(Clone, Copy, Debug, PartialEq, Eq, Structural)]
pub struct Stored {
    /// The value as it was handed to the store, with its time of expiry.
    pub value: UserCacheValue,
    /// Whether the store holds the value under its key after the insertion,
    /// as a lookup right after it found.
    pub held: bool,
}

/// A bounded cache with a time to live.
pub struct CacheWithTTL {
    /// The store.
    pub store: UserStore,
    /// How long an entry lives, in milliseconds.
    pub ttl: u64,
}

impl View for CacheWithTTL {
    type V = TtlEntries;

    open spec fn view(&self) -> TtlEntries {
        self.store@
    }
}

impl CacheWithTTL {
    /// An empty cache for about `capacity` entries that live for `ttl`
    /// milliseconds.
    pub fn new_with_capacity(capacity: usize, ttl: u64) -> (c: CacheWithTTL)
        ensures
            c@ == TtlEntries::empty(),
            c.ttl == ttl,
    {
        CacheWithTTL { store: UserStore { cache: store_new(capacity) }, ttl }
    }

    /// As `new_with_capacity`, for a cache that is shared.
    pub fn arc_with_capacity(capacity: usize, ttl: u64) -> (c: Arc<CacheWithTTL>)
        ensures
            c@ == TtlEntries::empty(),
            c.ttl == ttl,
    {
        Arc::new(CacheWithTTL::new_with_capacity(capacity, ttl))
    }

    /// An empty cache that holds entries up to the weight `weight_capacity`,
    /// each entry weighing 1, and expects about `estimated_items_capacity`
    /// of them.
    pub fn new_with_weights(estimated_items_capacity: usize, weight_capacity: u64, ttl: u64) -> (c:
        CacheWithTTL)
        ensures
            c@ == TtlEntries::empty(),
            c.ttl == ttl,
    {
        CacheWithTTL {
            store: UserStore { cache: store_with_weights(estimated_items_capacity, weight_capacity) },
            ttl,
        }
    }

    /// As `new_with_weights`.
    pub fn new(estimated_items_capacity: usize, weight_capacity: u64, ttl: u64) -> (c: CacheWithTTL)
        ensures
            c@ == TtlEntries::empty(),
            c.ttl == ttl,
    {
        CacheWithTTL::new_with_weights(estimated_items_capacity, weight_capacity, ttl)
    }

    /// What is live under `key` at `now`.
    pub open spec fn live_at(self, key: u128, now: u64) -> Option<UserCacheValue> {
        match stored(self@, key) {
            Some(v) => if live(v, now) {
                Some(v)
            } else {
                None
            },
            None => None,
        }
    }

    /// The value under `key`, unless it has expired at `now`.
    pub fn get(&self, key: &u128, now: u64) -> (r: Option<UserCacheValue>)
        ensures
            r == self.live_at(*key, now),
    {
        match store_get(&self.store.cache, key) {
            Some(v) => if v.expires_at >= now {
                Some(v)
            } else {
                None
            },
            None => None,
        }
    }

    /// Stores `val` under `key` at time `now`; it expires after the time to
    /// live of the cache. Returns the value as it was stored, and whether
    /// the store holds it: the store is bounded and may give up entries for
    /// a new key, the new entry among them, as it sees fit. A key that is
    /// held already, expired or not, is written over and stays.
    pub fn insert(&mut self, key: u128, val: UserCacheValue, now: u64) -> (r: Stored)
        ensures
            final(self).ttl == old(self).ttl,
            r.value == (UserCacheValue { expires_at: expiry(now, old(self).ttl), ..val }),
            within(final(self)@, old(self)@, key, r.value),
            r.held == (stored(final(self)@, key) == Some(r.value)),
            old(self)@.contains_key(key) ==> r.held,
    {
        let expires_at = if now <= u64::MAX - self.ttl {
            now + self.ttl
        } else {
            u64::MAX
        };
        let value = UserCacheValue { expires_at, ..val };
        store_insert(&mut self.store.cache, key, value);
        let held = store_get(&self.store.cache, &key).is_some();
        Stored { value, held }
    }

    /// Removes the entry under `key`. Returns whether there was one.
    pub fn remove(&mut self, key: &u128) -> (removed: bool)
        ensures
            final(self).ttl == old(self).ttl,
            final(self)@ == old(self)@.remove(*key),
            removed == old(self)@.contains_key(*key),
    {
        store_remove(&mut self.store.cache, key)
    }

    /// The value under `key` where one is live at `now`. Where none is,
    /// `computed` is what the caller made of the key in the meantime: a
    /// value is stored as `insert` stores it and returned as it was stored,
    /// an error is handed on and nothing is stored.
    pub fn get_or_insert_async<E>(
        &mut self,
        key: &u128,
        now: u64,
        computed: Result<UserCacheValue, E>,
    ) -> (r: Result<UserCacheValue, E>)
        ensures
            final(self).ttl == old(self).ttl,
            match old(self).live_at(*key, now) {
                Some(v) => r == Ok::<UserCacheValue, E>(v) && final(self)@ == old(self)@,
                None => match computed {
                    Ok(v) => {
                        let kept = UserCacheValue { expires_at: expiry(now, old(self).ttl), ..v };
                        &&& r == Ok::<UserCacheValue, E>(kept)
                        &&& within(final(self)@, old(self)@, *key, kept)
                        &&& old(self)@.contains_key(*key) ==> stored(final(self)@, *key) == Some(
                            kept,
                        )
                    },
                    Err(e) => r == Err::<UserCacheValue, E>(e) && final(self)@ == old(self)@,
                },
            },
    {
        match self.get(key, now) {
            Some(v) => Ok(v),
            None => match computed {
                Ok(v) => Ok(self.insert(*key, v, now).value),
                Err(e) => Err(e),
            },
        }
    }

    /// The value under `key` where one is live at `now`; else the key
    /// itself, as the charge to compute the value and to insert it.
    pub fn get_value_or_guard_async(&self, key: u128, now: u64) -> (r: Result<UserCacheValue, u128>)
        ensures
            r == (match self.live_at(key, now) {
                Some(v) => Ok(v),
                None => Err(key),
            }),
    {
        match self.get(&key, now) {
            Some(v) => Ok(v),
            None => Err(key),
        }
    }
}

} // verus!

//! Counter/KV store: a byte-value cache with TTL and an atomic
//! increment-with-window counter.
//!
//! Two interchangeable variants implement the same capability set. The
//! in-memory variant is driven by an explicit clock and realises the full
//! contract, including the fixed-window counter: the window is armed only
//! when a count starts at 1 and is left untouched by later hits, so it resets
//! only when it fully expires. The no-op variant always reports misses,
//! discards writes and counts every hit as the first — used when no cache
//! backend is configured, it keeps every feature available.

use vstd::prelude::*;

use crate::assoc::{
    assoc_keys_unique,
    assoc_map,
    lemma_assoc_map_domain,
    lemma_assoc_map_index,
    lemma_assoc_map_remove,
    lemma_assoc_map_update,
};
use crate::error::StoreError;
use crate::text::str_eq;

verus! {

/// `a + b`, saturating at the largest `u64`.
pub open spec fn sat_add(a: u64, b: u64) -> u64 {
    if a + b > u64::MAX {
        u64::MAX
    } else {
        (a + b) as u64
    }
}

fn sat_add_exec(a: u64, b: u64) -> (r: u64)
    ensures
        r == sat_add(a, b),
{
    if b > u64::MAX - a {
        u64::MAX
    } else {
        a + b
    }
}

/// Mathematical value of one cached byte entry.
pub ghost struct KvData {
    pub value: Seq<u8>,
    pub expires_at: u64,
}

/// Mathematical value of one window counter.
pub ghost struct CounterData {
    pub count: u64,
    pub expires_at: u64,
}

struct KvRow {
    key: String,
    value: Vec<u8>,
    expires_at: u64,
}

struct CounterRow {
    key: String,
    count: u64,
    expires_at: u64,
}

spec fn kv_key_fn() -> spec_fn(KvRow) -> Seq<char> {
    |r: KvRow| r.key@
}

spec fn kv_data_fn() -> spec_fn(KvRow) -> KvData {
    |r: KvRow| KvData { value: r.value@, expires_at: r.expires_at }
}

spec fn counter_key_fn() -> spec_fn(CounterRow) -> Seq<char> {
    |r: CounterRow| r.key@
}

spec fn counter_data_fn() -> spec_fn(CounterRow) -> CounterData {
    |r: CounterRow| CounterData { count: r.count, expires_at: r.expires_at }
}

/// What a lookup returns: the stored bytes, if present and not yet expired.
pub open spec fn kv_lookup(kv: Map<Seq<char>, KvData>, key: Seq<char>, now: u64) -> Option<
    Seq<u8>,
> {
    if kv.contains_key(key) && kv[key].expires_at > now {
        Some(kv[key].value)
    } else {
        None
    }
}

/// The counter map after one `increment_with_window` hit: a fresh window
/// (key absent or expired) restarts the count at 1 and arms a new expiry;
/// otherwise the count grows by exactly 1 and the expiry is left untouched.
pub open spec fn counter_bump_map(
    counters: Map<Seq<char>, CounterData>,
    key: Seq<char>,
    window_seconds: u64,
    now: u64,
) -> Map<Seq<char>, CounterData> {
    if !counters.contains_key(key) || counters[key].expires_at <= now {
        counters.insert(key, CounterData { count: 1, expires_at: sat_add(now, window_seconds) })
    } else if counters[key].count < u64::MAX {
        counters.insert(
            key,
            CounterData { count: (counters[key].count + 1) as u64, expires_at: counters[key].expires_at },
        )
    } else {
        counters
    }
}

/// What one `increment_with_window` hit returns.
pub open spec fn counter_bump_result(
    counters: Map<Seq<char>, CounterData>,
    key: Seq<char>,
    now: u64,
) -> Result<u64, StoreError> {
    if !counters.contains_key(key) || counters[key].expires_at <= now {
        Ok(1)
    } else if counters[key].count < u64::MAX {
        Ok((counters[key].count + 1) as u64)
    } else {
        Err(StoreError::MalformedRecord)
    }
}

/// In-memory store variant, driven by an explicit clock (unix seconds).
pub struct MemoryCacheStore {
    kv: Vec<KvRow>,
    counters: Vec<CounterRow>,
}

impl MemoryCacheStore {
    /// The stored byte entries, keyed by key text.
    pub closed spec fn kv_map(&self) -> Map<Seq<char>, KvData> {
        assoc_map(self.kv@, kv_key_fn(), kv_data_fn())
    }

    /// The window counters, keyed by key text.
    pub closed spec fn counter_map(&self) -> Map<Seq<char>, CounterData> {
        assoc_map(self.counters@, counter_key_fn(), counter_data_fn())
    }

    /// Internal invariant: at most one row per key on either side.
    pub closed spec fn wf(&self) -> bool {
        assoc_keys_unique(self.kv@, kv_key_fn()) && assoc_keys_unique(
            self.counters@,
            counter_key_fn(),
        )
    }

    /// An empty store.
    pub fn new() -> (r: MemoryCacheStore)
        ensures
            r.wf(),
            r.kv_map() == Map::<Seq<char>, KvData>::empty(),
            r.counter_map() == Map::<Seq<char>, CounterData>::empty(),
    {
        MemoryCacheStore { kv: Vec::new(), counters: Vec::new() }
    }

    fn find_kv(&self, key: &str) -> (r: Option<usize>)
        ensures
            match r {
                Some(i) => i < self.kv@.len() && self.kv@[i as int].key@ == key@,
                None => forall|i: int| 0 <= i < self.kv@.len() ==> self.kv@[i].key@ != key@,
            },
    {
        let mut i: usize = 0;
        while i < self.kv.len()
            invariant
                i <= self.kv@.len(),
                forall|j: int| 0 <= j < i ==> self.kv@[j].key@ != key@,
            decreases self.kv@.len() - i,
        {
            if str_eq(self.kv[i].key.as_str(), key) {
                return Some(i);
            }
            i = i + 1;
        }
        None
    }

    fn find_counter(&self, key: &str) -> (r: Option<usize>)
        ensures
            match r {
                Some(i) => i < self.counters@.len() && self.counters@[i as int].key@ == key@,
                None => forall|i: int|
                    0 <= i < self.counters@.len() ==> self.counters@[i].key@ != key@,
            },
    {
        let mut i: usize = 0;
        while i < self.counters.len()
            invariant
                i <= self.counters@.len(),
                forall|j: int| 0 <= j < i ==> self.counters@[j].key@ != key@,
            decreases self.counters@.len() - i,
        {
            if str_eq(self.counters[i].key.as_str(), key) {
                return Some(i);
            }
            i = i + 1;
        }
        None
    }

    /// Read the bytes stored for `key`, absent or expired entries reading as
    /// a miss. Never fails: absence is not an error.
    pub fn get(&self, key: &str, now: u64) -> (r: Result<Option<Vec<u8>>, StoreError>)
        requires
            self.wf(),
        ensures
            match r {
                Ok(o) => (match o {
                    Some(v) => kv_lookup(self.kv_map(), key@, now) == Some(v@),
                    None => kv_lookup(self.kv_map(), key@, now) is None,
                }),
                Err(_) => false,
            },
    {
        proof {
            lemma_assoc_map_domain(self.kv@, kv_key_fn(), kv_data_fn(), key@);
        }
        match self.find_kv(key) {
            Some(i) => {
                proof {
                    lemma_assoc_map_index(self.kv@, kv_key_fn(), kv_data_fn(), i as int);
                }
                let row = &self.kv[i];
                if row.expires_at > now {
                    Ok(Some(row.value.clone()))
                } else {
                    Ok(None)
                }
            },
            None => Ok(None),
        }
    }

    /// Unconditional upsert with expiry: overwrites any prior value and TTL.
    pub fn set(&mut self, key: &str, value: Vec<u8>, ttl_seconds: u64, now: u64) -> (r: Result<
        (),
        StoreError,
    >)
        requires
            old(self).wf(),
        ensures
            final(self).wf(),
            r is Ok,
            final(self).kv_map() == old(self).kv_map().insert(
                key@,
                KvData { value: value@, expires_at: sat_add(now, ttl_seconds) },
            ),
            final(self).counter_map() == old(self).counter_map(),
    {
        let expires_at = sat_add_exec(now, ttl_seconds);
        let row = KvRow { key: key.to_owned(), value, expires_at };
        let ghost kf = kv_key_fn();
        let ghost df = kv_data_fn();
        match self.find_kv(key) {
            Some(i) => {
                proof {
                    lemma_assoc_map_update(self.kv@, kf, df, i as int, row);
                }
                self.kv[i] = row;
            },
            None => {
                proof {
                    lemma_assoc_map_domain(self.kv@, kf, df, key@);
                }
                self.kv.push(row);
                proof {
                    assert(self.kv@.drop_last() =~= old(self).kv@);
                }
            },
        }
        proof {
            assert(final(self).kv_map() =~= old(self).kv_map().insert(
                key@,
                KvData { value: value@, expires_at: sat_add(now, ttl_seconds) },
            ));
        }
        Ok(())
    }

    /// Idempotent removal of `key` from both sides of the store; absence is
    /// not an error.
    pub fn del(&mut self, key: &str) -> (r: Result<(), StoreError>)
        requires
            old(self).wf(),
        ensures
            final(self).wf(),
            r is Ok,
            final(self).kv_map() == old(self).kv_map().remove(key@),
            final(self).counter_map() == old(self).counter_map().remove(key@),
    {
        let ghost kkf = kv_key_fn();
        let ghost kdf = kv_data_fn();
        proof {
            lemma_assoc_map_domain(self.kv@, kkf, kdf, key@);
        }
        match self.find_kv(key) {
            Some(i) => {
                proof {
                    lemma_assoc_map_remove(self.kv@, kkf, kdf, i as int);
                }
                self.kv.remove(i);
            },
            None => {
                proof {
                    assert(old(self).kv_map() =~= old(self).kv_map().remove(key@));
                }
            },
        }
        let ghost ckf = counter_key_fn();
        let ghost cdf = counter_data_fn();
        proof {
            lemma_assoc_map_domain(self.counters@, ckf, cdf, key@);
        }
        match self.find_counter(key) {
            Some(i) => {
                proof {
                    lemma_assoc_map_remove(self.counters@, ckf, cdf, i as int);
                }
                self.counters.remove(i);
            },
            None => {
                proof {
                    assert(old(self).counter_map() =~= old(self).counter_map().remove(key@));
                }
            },
        }
        proof {
            assert(final(self).kv_map() =~= old(self).kv_map().remove(key@));
            assert(final(self).counter_map() =~= old(self).counter_map().remove(key@));
        }
        Ok(())
    }

    /// Atomically count one hit of `key` within a fixed window.
    ///
    /// The first hit of a window (key absent or expired) returns 1 and arms a
    /// TTL of `window_seconds`; every later hit inside the window returns the
    /// count increased by exactly 1 and leaves the expiry untouched, so the
    /// window resets only when it fully expires. Fails only when the count
    /// can no longer be represented.
    pub fn increment_with_window(&mut self, key: &str, window_seconds: u64, now: u64) -> (r: Result<
        u64,
        StoreError,
    >)
        requires
            old(self).wf(),
        ensures
            final(self).wf(),
            r == counter_bump_result(old(self).counter_map(), key@, now),
            final(self).counter_map() == counter_bump_map(
                old(self).counter_map(),
                key@,
                window_seconds,
                now,
            ),
            final(self).kv_map() == old(self).kv_map(),
    {
        let ghost ckf = counter_key_fn();
        let ghost cdf = counter_data_fn();
        proof {
            lemma_assoc_map_domain(self.counters@, ckf, cdf, key@);
        }
        match self.find_counter(key) {
            Some(i) => {
                proof {
                    lemma_assoc_map_index(self.counters@, ckf, cdf, i as int);
                }
                let expired = self.counters[i].expires_at <= now;
                if expired {
                    let row = CounterRow {
                        key: key.to_owned(),
                        count: 1,
                        expires_at: sat_add_exec(now, window_seconds),
                    };
                    proof {
                        lemma_assoc_map_update(self.counters@, ckf, cdf, i as int, row);
                    }
                    self.counters[i] = row;
                    proof {
                        assert(final(self).counter_map() =~= counter_bump_map(
                            old(self).counter_map(),
                            key@,
                            window_seconds,
                            now,
                        ));
                    }
                    Ok(1)
                } else if self.counters[i].count < u64::MAX {
                    let row = CounterRow {
                        key: key.to_owned(),
                        count: self.counters[i].count + 1,
                        expires_at: self.counters[i].expires_at,
                    };
                    proof {
                        lemma_assoc_map_update(self.counters@, ckf, cdf, i as int, row);
                    }
                    let new_count = row.count;
                    self.counters[i] = row;
                    proof {
                        assert(final(self).counter_map() =~= counter_bump_map(
                            old(self).counter_map(),
                            key@,
                            window_seconds,
                            now,
                        ));
                    }
                    Ok(new_count)
                } else {
                    Err(StoreError::MalformedRecord)
                }
            },
            None => {
                let row = CounterRow {
                    key: key.to_owned(),
                    count: 1,
                    expires_at: sat_add_exec(now, window_seconds),
                };
                self.counters.push(row);
                proof {
                    assert(self.counters@.drop_last() =~= old(self).counters@);
                    assert(final(self).counter_map() =~= counter_bump_map(
                        old(self).counter_map(),
                        key@,
                        window_seconds,
                        now,
                    ));
                }
                Ok(1)
            },
        }
    }

    /// Liveness probe; the in-memory store is always reachable.
    pub fn ping(&self) -> (r: Result<(), StoreError>)
        ensures
            r is Ok,
    {
        Ok(())
    }
}

/// No-op store variant: always misses, discards writes, counts every hit as
/// the first, and never fails a feature.
#[derive(Clone, Debug, Default)]
pub struct NoopCacheStore;

impl NoopCacheStore {
    /// Always a miss.
    pub fn get(&self, _key: &str) -> (r: Result<Option<Vec<u8>>, StoreError>)
        ensures
            r == Ok::<Option<Vec<u8>>, StoreError>(None),
    {
        Ok(None)
    }

    /// Discards the write.
    pub fn set(&self, _key: &str, _value: Vec<u8>, _ttl_seconds: u64) -> (r: Result<
        (),
        StoreError,
    >)
        ensures
            r is Ok,
    {
        Ok(())
    }

    /// Nothing to remove.
    pub fn del(&self, _key: &str) -> (r: Result<(), StoreError>)
        ensures
            r is Ok,
    {
        Ok(())
    }

    /// Every hit counts as the first of a window: always under any limit.
    pub fn increment_with_window(&self, _key: &str, _window_seconds: u64) -> (r: Result<
        u64,
        StoreError,
    >)
        ensures
            r == Ok::<u64, StoreError>(1),
    {
        Ok(1)
    }

    /// Always live.
    pub fn ping(&self) -> (r: Result<(), StoreError>)
        ensures
            r is Ok,
    {
        Ok(())
    }
}

/// The store a deployment runs with: the in-memory variant when a cache is
/// configured, the no-op variant otherwise.
pub enum CacheStore {
    Noop(NoopCacheStore),
    Memory(MemoryCacheStore),
}

impl CacheStore {
    /// Internal invariant of the selected variant.
    pub open spec fn wf(&self) -> bool {
        match self {
            CacheStore::Noop(_) => true,
            CacheStore::Memory(m) => m.wf(),
        }
    }

    /// Count one hit of `key` within a fixed window, on whichever variant is
    /// selected: the no-op variant reports every hit as the first.
    pub fn increment_with_window(&mut self, key: &str, window_seconds: u64, now: u64) -> (r: Result<
        u64,
        StoreError,
    >)
        requires
            old(self).wf(),
        ensures
            final(self).wf(),
            (*old(self)) is Noop ==> (*final(self)) == (*old(self)) && r == Ok::<u64, StoreError>(1),
            (*old(self)) is Memory ==> (*final(self)) is Memory && {
                let m = (*old(self))->Memory_0;
                let m2 = (*final(self))->Memory_0;
                &&& r == counter_bump_result(m.counter_map(), key@, now)
                &&& m2.counter_map() == counter_bump_map(m.counter_map(), key@, window_seconds, now)
                &&& m2.kv_map() == m.kv_map()
            },
    {
        match self {
            CacheStore::Noop(s) => s.increment_with_window(key, window_seconds),
            CacheStore::Memory(m) => m.increment_with_window(key, window_seconds, now),
        }
    }

    /// Read the bytes stored for `key`: always a miss on the no-op variant.
    pub fn get(&self, key: &str, now: u64) -> (r: Result<Option<Vec<u8>>, StoreError>)
        requires
            self.wf(),
        ensures
            (*self) is Noop ==> r == Ok::<Option<Vec<u8>>, StoreError>(None),
            (*self) is Memory ==> (match r {
                Ok(o) => (match o {
                    Some(v) => kv_lookup(((*self)->Memory_0).kv_map(), key@, now) == Some(v@),
                    None => kv_lookup(((*self)->Memory_0).kv_map(), key@, now) is None,
                }),
                Err(_) => false,
            }),
    {
        match self {
            CacheStore::Noop(s) => s.get(key),
            CacheStore::Memory(m) => m.get(key, now),
        }
    }

    /// Upsert with expiry: discarded by the no-op variant.
    pub fn set(&mut self, key: &str, value: Vec<u8>, ttl_seconds: u64, now: u64) -> (r: Result<
        (),
        StoreError,
    >)
        requires
            old(self).wf(),
        ensures
            final(self).wf(),
            r is Ok,
            (*old(self)) is Noop ==> (*final(self)) == (*old(self)),
            (*old(self)) is Memory ==> (*final(self)) is Memory && {
                let m = (*old(self))->Memory_0;
                let m2 = (*final(self))->Memory_0;
                &&& m2.kv_map() == m.kv_map().insert(
                    key@,
                    KvData { value: value@, expires_at: sat_add(now, ttl_seconds) },
                )
                &&& m2.counter_map() == m.counter_map()
            },
    {
        match self {
            CacheStore::Noop(s) => s.set(key, value, ttl_seconds),
            CacheStore::Memory(m) => m.set(key, value, ttl_seconds, now),
        }
    }

    /// Idempotent removal: nothing to remove on the no-op variant.
    pub fn del(&mut self, key: &str) -> (r: Result<(), StoreError>)
        requires
            old(self).wf(),
        ensures
            final(self).wf(),
            r is Ok,
            (*old(self)) is Noop ==> (*final(self)) == (*old(self)),
            (*old(self)) is Memory ==> (*final(self)) is Memory && {
                let m = (*old(self))->Memory_0;
                let m2 = (*final(self))->Memory_0;
                &&& m2.kv_map() == m.kv_map().remove(key@)
                &&& m2.counter_map() == m.counter_map().remove(key@)
            },
    {
        match self {
            CacheStore::Noop(s) => s.del(key),
            CacheStore::Memory(m) => m.del(key),
        }
    }

    /// Liveness probe.
    pub fn ping(&self) -> (r: Result<(), StoreError>)
        ensures
            r is Ok,
    {
        match self {
            CacheStore::Noop(s) => s.ping(),
            CacheStore::Memory(m) => m.ping(),
        }
    }
}

} // verus!

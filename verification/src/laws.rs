//! Laws: properties of the stores and the limiter that hold for all inputs,
//! stated over the same models the operation contracts use.

use vstd::prelude::*;

use crate::cache::{counter_bump_map, counter_bump_result, sat_add, CounterData};
use crate::classify::EventKind;
use crate::error::StoreError;
use crate::pipeline::{observation_kind, Observation};
use crate::rate::admitted;
use crate::snapshot::{SnapshotData, SnapshotKey};

verus! {

/// After any two upserts and a delete on one identity, the snapshot is
/// absent, and the next observation of that identity establishes a fresh
/// baseline: its classification is no event, so nothing is diffed against
/// ghost state. (`upsert` maps to `insert`, `delete` to `remove` and `get`
/// to lookup in the contracts of the snapshot store.)
pub proof fn lemma_recreate_after_delete(
    m: Map<SnapshotKey, SnapshotData>,
    a: SnapshotData,
    b: SnapshotData,
    obs: Observation,
)
    ensures
        ({
            let k = (obs.guild_id, obs.channel_id, obs.message_id);
            let after = m.insert(k, a).insert(k, b).remove(k);
            &&& !after.contains_key(k)
            &&& observation_kind(
                if after.contains_key(k) {
                    Some(after[k])
                } else {
                    None
                },
                obs,
            ) == None::<EventKind>
        }),
{
}

/// Deleting a snapshot is idempotent: a second delete of the same identity
/// leaves the store as the first left it (and, by the delete contract,
/// succeeds whether or not the identity is present).
pub proof fn lemma_delete_idempotent(m: Map<SnapshotKey, SnapshotData>, k: SnapshotKey)
    ensures
        m.remove(k).remove(k) =~= m.remove(k),
{
}

/// The fixed window of the counter: the first hit of a fresh window counts 1
/// and arms the window; a second hit before the window elapses counts 2
/// without rearming it; a hit after the window has fully elapsed counts 1
/// again (the window resets only on expiry).
pub proof fn lemma_fixed_window_counter(
    counters: Map<Seq<char>, CounterData>,
    key: Seq<char>,
    window_seconds: u64,
    now1: u64,
    now2: u64,
    now3: u64,
)
    requires
        !counters.contains_key(key) || counters[key].expires_at <= now1,
        now1 <= now2 < sat_add(now1, window_seconds),
        now3 >= sat_add(now1, window_seconds),
    ensures
        counter_bump_result(counters, key, now1) == Ok::<u64, StoreError>(1),
        ({
            let m1 = counter_bump_map(counters, key, window_seconds, now1);
            let m2 = counter_bump_map(m1, key, window_seconds, now2);
            &&& counter_bump_result(m1, key, now2) == Ok::<u64, StoreError>(2)
            &&& m1[key].expires_at == m2[key].expires_at
            &&& counter_bump_result(m2, key, now3) == Ok::<u64, StoreError>(1)
        }),
{
}

/// The admission threshold: a counted hit is admitted exactly when the count
/// is at or under the budget — counts 1 up to `max_hits` pass, anything
/// strictly above is blocked.
pub proof fn lemma_admission_threshold(count: u64, max_hits: u64)
    ensures
        admitted(Ok::<u64, StoreError>(count), max_hits) == (count <= max_hits),
{
}

/// The no-op store counts every hit as the first of a window, so with any
/// budget of at least one hit, every call is admitted: the missing cache
/// backend never blocks a feature.
pub proof fn lemma_noop_always_admits(max_hits: u64)
    requires
        max_hits >= 1,
    ensures
        admitted(Ok::<u64, StoreError>(1), max_hits),
{
}

} // verus!

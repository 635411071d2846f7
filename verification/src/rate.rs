//! Rate limiter: a fixed-window admission decision on top of the counter
//! store, keyed per (feature, guild, channel, user).
//!
//! Each call counts one hit and admits it iff the count within the current
//! window stays at or under the hit budget. A counter failure fails open —
//! the user-facing feature stays available when the cache backend does not —
//! and every over-limit hit raises an observability counter that tells
//! blocked events apart from normal traffic.

use vstd::prelude::*;

use crate::cache::{counter_bump_map, counter_bump_result, sat_add, CacheStore};
use crate::error::StoreError;
use crate::text::{dec_str, u64_to_string};

verus! {

/// Window length, in seconds, of the mention-triggered reply budget.
pub const LLM_MENTION_RATE_LIMIT_WINDOW: u64 = 60;

/// Hits admitted per window for mention-triggered replies.
pub const LLM_MENTION_RATE_LIMIT_MAX_HITS: u64 = 5;

/// Observability counters of the rate limiter.
pub struct RateLimitStats {
    /// How many hits were blocked: raised once per over-limit hit.
    pub blocked_hits: u64,
}

/// The composite counter key for one (feature, guild, channel, user).
pub open spec fn rate_limit_key(
    feature: Seq<char>,
    guild_id: u64,
    channel_id: u64,
    user_id: u64,
) -> Seq<char> {
    "ratelimit:"@ + feature + ":"@ + dec_str(guild_id as int) + ":"@ + dec_str(channel_id as int)
        + ":"@ + dec_str(user_id as int)
}

/// Build the composite counter key for one (feature, guild, channel, user).
pub fn build_rate_limit_key(feature: &str, guild_id: u64, channel_id: u64, user_id: u64) -> (r:
    String)
    ensures
        r@ == rate_limit_key(feature@, guild_id, channel_id, user_id),
{
    let mut key = String::from_str("ratelimit:");
    key.append(feature);
    key.append(":");
    key.append(u64_to_string(guild_id).as_str());
    key.append(":");
    key.append(u64_to_string(channel_id).as_str());
    key.append(":");
    key.append(u64_to_string(user_id).as_str());
    key
}

/// The admission decision implied by a counter outcome: admitted iff the
/// count stays at or under `max_hits`, and admitted on a counter failure
/// (fail open).
pub open spec fn admitted(r: Result<u64, StoreError>, max_hits: u64) -> bool {
    match r {
        Ok(count) => count <= max_hits,
        Err(_) => true,
    }
}

/// The blocked-hit counter after a counter outcome: raised exactly when an
/// over-limit hit was counted.
pub open spec fn blocked_after(blocked: u64, r: Result<u64, StoreError>, max_hits: u64) -> u64 {
    match r {
        Ok(count) => if count > max_hits {
            sat_add(blocked, 1)
        } else {
            blocked
        },
        Err(_) => blocked,
    }
}

/// Count one hit for (feature, guild, channel, user) and decide admission.
///
/// Admits iff the window count stays at or under `max_hits`; fails open on a
/// counter error; raises the blocked-hits counter on every over-limit hit.
/// On the no-op store every hit counts as the first and is admitted.
pub fn within_limit(
    store: &mut CacheStore,
    stats: &mut RateLimitStats,
    feature: &str,
    guild_id: u64,
    channel_id: u64,
    user_id: u64,
    window_seconds: u64,
    max_hits: u64,
    now: u64,
) -> (r: bool)
    requires
        old(store).wf(),
        max_hits >= 1,
    ensures
        final(store).wf(),
        (*old(store)) is Noop ==> r == true && *final(store) == *old(store)
            && final(stats).blocked_hits == old(stats).blocked_hits,
        (*old(store)) is Memory ==> (*final(store)) is Memory && {
            let key = rate_limit_key(feature@, guild_id, channel_id, user_id);
            let m = (*old(store))->Memory_0;
            let m2 = (*final(store))->Memory_0;
            let outcome = counter_bump_result(m.counter_map(), key, now);
            &&& m2.counter_map() == counter_bump_map(m.counter_map(), key, window_seconds, now)
            &&& m2.kv_map() == m.kv_map()
            &&& r == admitted(outcome, max_hits)
            &&& final(stats).blocked_hits == blocked_after(old(stats).blocked_hits, outcome, max_hits)
        },
{
    let key = build_rate_limit_key(feature, guild_id, channel_id, user_id);
    match store.increment_with_window(key.as_str(), window_seconds, now) {
        Ok(count) => {
            if count > max_hits {
                stats.blocked_hits = if stats.blocked_hits == u64::MAX {
                    u64::MAX
                } else {
                    stats.blocked_hits + 1
                };
                false
            } else {
                true
            }
        },
        Err(_) => {
            // Fail open: availability of the feature must not depend on the
            // cache backend's health.
            true
        },
    }
}

/// Count one hit of the mention-triggered reply budget for (guild, channel,
/// user) and decide admission, under the configured window and budget.
pub fn llm_mention_within_limit(
    store: &mut CacheStore,
    stats: &mut RateLimitStats,
    guild_id: u64,
    channel_id: u64,
    user_id: u64,
    now: u64,
) -> (r: bool)
    requires
        old(store).wf(),
    ensures
        final(store).wf(),
        (*old(store)) is Noop ==> r == true && *final(store) == *old(store)
            && final(stats).blocked_hits == old(stats).blocked_hits,
        (*old(store)) is Memory ==> (*final(store)) is Memory && {
            let key = rate_limit_key("llm_mention"@, guild_id, channel_id, user_id);
            let m = (*old(store))->Memory_0;
            let m2 = (*final(store))->Memory_0;
            let outcome = counter_bump_result(m.counter_map(), key, now);
            &&& m2.counter_map() == counter_bump_map(
                m.counter_map(),
                key,
                LLM_MENTION_RATE_LIMIT_WINDOW,
                now,
            )
            &&& m2.kv_map() == m.kv_map()
            &&& r == admitted(outcome, LLM_MENTION_RATE_LIMIT_MAX_HITS)
            &&& final(stats).blocked_hits == blocked_after(
                old(stats).blocked_hits,
                outcome,
                LLM_MENTION_RATE_LIMIT_MAX_HITS,
            )
        },
{
    within_limit(
        store,
        stats,
        "llm_mention",
        guild_id,
        channel_id,
        user_id,
        LLM_MENTION_RATE_LIMIT_WINDOW,
        LLM_MENTION_RATE_LIMIT_MAX_HITS,
        now,
    )
}

} // verus!

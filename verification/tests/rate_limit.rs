use guild_audit::cache::{CacheStore, MemoryCacheStore, NoopCacheStore};
use guild_audit::rate::{
    build_rate_limit_key, llm_mention_within_limit, within_limit, RateLimitStats,
};

#[test]
fn increment_with_window_counts_and_resets() {
    let mut store = MemoryCacheStore::new();
    // First hit of a fresh window counts 1.
    assert_eq!(store.increment_with_window("k", 60, 0).unwrap(), 1);
    // A second hit before the window elapses counts 2.
    assert_eq!(store.increment_with_window("k", 60, 10).unwrap(), 2);
    assert_eq!(store.increment_with_window("k", 60, 59).unwrap(), 3);
    // After the window has fully elapsed the count restarts at 1.
    assert_eq!(store.increment_with_window("k", 60, 60).unwrap(), 1);
    assert_eq!(store.increment_with_window("k", 60, 61).unwrap(), 2);
}

#[test]
fn increment_windows_are_per_key() {
    let mut store = MemoryCacheStore::new();
    assert_eq!(store.increment_with_window("a", 60, 0).unwrap(), 1);
    assert_eq!(store.increment_with_window("b", 60, 0).unwrap(), 1);
    assert_eq!(store.increment_with_window("a", 60, 1).unwrap(), 2);
    assert_eq!(store.increment_with_window("b", 60, 1).unwrap(), 2);
}

#[test]
fn within_limit_admits_up_to_budget() {
    let mut store = CacheStore::Memory(MemoryCacheStore::new());
    let mut stats = RateLimitStats { blocked_hits: 0 };
    for call in 1..=5u64 {
        assert!(
            within_limit(&mut store, &mut stats, "f", 1, 2, 3, 60, 5, 0),
            "call {} should be admitted",
            call
        );
    }
    assert!(!within_limit(&mut store, &mut stats, "f", 1, 2, 3, 60, 5, 0));
    assert_eq!(stats.blocked_hits, 1);
    // Every further over-limit hit raises the signal again.
    assert!(!within_limit(&mut store, &mut stats, "f", 1, 2, 3, 60, 5, 0));
    assert_eq!(stats.blocked_hits, 2);
}

#[test]
fn within_limit_window_reset_admits_again() {
    let mut store = CacheStore::Memory(MemoryCacheStore::new());
    let mut stats = RateLimitStats { blocked_hits: 0 };
    for _ in 0..6 {
        within_limit(&mut store, &mut stats, "f", 1, 2, 3, 60, 5, 0);
    }
    assert!(within_limit(&mut store, &mut stats, "f", 1, 2, 3, 60, 5, 60));
}

#[test]
fn noop_store_always_within_limit() {
    let mut store = CacheStore::Noop(NoopCacheStore);
    let mut stats = RateLimitStats { blocked_hits: 0 };
    for _ in 0..50 {
        assert!(llm_mention_within_limit(&mut store, &mut stats, 1, 2, 3, 0));
    }
    assert_eq!(stats.blocked_hits, 0);
}

#[test]
fn rate_limit_key_format() {
    assert_eq!(
        build_rate_limit_key("llm_mention", 1, 22, 333),
        "ratelimit:llm_mention:1:22:333"
    );
}

#[test]
fn noop_store_misses_and_discards() {
    let store = NoopCacheStore;
    assert_eq!(store.get("k").unwrap(), None);
    store.set("k", vec![1, 2, 3], 60).unwrap();
    assert_eq!(store.get("k").unwrap(), None);
    store.del("k").unwrap();
    assert_eq!(store.increment_with_window("k", 60).unwrap(), 1);
    assert!(store.ping().is_ok());
}

#[test]
fn memory_store_kv_ttl() {
    let mut store = MemoryCacheStore::new();
    store.set("k", vec![1, 2, 3], 60, 0).unwrap();
    assert_eq!(store.get("k", 10).unwrap(), Some(vec![1, 2, 3]));
    // An expired entry reads as a miss.
    assert_eq!(store.get("k", 60).unwrap(), None);
    // A fresh set overwrites value and TTL.
    store.set("k", vec![9], 60, 100).unwrap();
    assert_eq!(store.get("k", 150).unwrap(), Some(vec![9]));
    store.del("k").unwrap();
    assert_eq!(store.get("k", 150).unwrap(), None);
    assert!(store.ping().is_ok());
}

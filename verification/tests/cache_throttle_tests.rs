use atproto_oauth::cache::Cache;
use atproto_oauth::throttle::Throttle;

#[test]
fn cache_hit_within_ttl() {
    let mut c: Cache<u64> = Cache::new(10, 60);
    c.set("k", 7, 100);
    assert_eq!(c.get("k", 100).copied(), Some(7));
    assert_eq!(c.get("k", 159).copied(), Some(7));
}

#[test]
fn cache_expires_after_ttl() {
    let mut c: Cache<u64> = Cache::new(10, 60);
    c.set("k", 7, 100);
    assert_eq!(c.get("k", 160).copied(), None);
    assert_eq!(c.get("k", 500).copied(), None);
}

#[test]
fn cache_miss_is_none() {
    let c: Cache<u64> = Cache::new(10, 60);
    assert_eq!(c.get("absent", 0).copied(), None);
}

#[test]
fn cache_overwrite_refreshes_value_and_stamp() {
    let mut c: Cache<u64> = Cache::new(10, 60);
    c.set("k", 1, 0);
    c.set("k", 2, 50);
    assert_eq!(c.get("k", 100).copied(), Some(2));
}

#[test]
fn cache_eviction_keeps_exactly_capacity() {
    // Inserting capacity + 1 distinct keys leaves exactly capacity
    // entries retrievable, and the evicted key is the least recently
    // used one under this deterministic access sequence.
    let mut c: Cache<u64> = Cache::new(3, 1000);
    c.set("a", 1, 1);
    c.set("b", 2, 2);
    c.set("c", 3, 3);
    c.set("d", 4, 4);
    assert_eq!(c.get("a", 5).copied(), None);
    assert_eq!(c.get("b", 5).copied(), Some(2));
    assert_eq!(c.get("c", 5).copied(), Some(3));
    assert_eq!(c.get("d", 5).copied(), Some(4));
}

#[test]
fn cache_eviction_order_is_deterministic() {
    let mut c: Cache<u64> = Cache::new(2, 1000);
    c.set("a", 1, 1);
    c.set("b", 2, 2);
    c.set("c", 3, 3);
    assert_eq!(c.get("a", 4).copied(), None);
    c.set("d", 4, 4);
    assert_eq!(c.get("b", 5).copied(), None);
    assert_eq!(c.get("c", 5).copied(), Some(3));
    assert_eq!(c.get("d", 5).copied(), Some(4));
}

#[test]
fn throttle_one_leader_per_key() {
    // Of N joiners for the same key, exactly the first leads.
    let mut t: Throttle<u64> = Throttle::new();
    assert!(t.join("h"));
    assert!(!t.join("h"));
    assert!(!t.join("h"));
}

#[test]
fn throttle_all_joiners_get_same_result() {
    let mut t: Throttle<u64> = Throttle::new();
    assert!(t.join("h"));
    assert!(!t.join("h"));
    assert!(!t.join("h"));
    assert_eq!(t.collect("h"), None); // not complete yet
    t.complete("h", 42);
    let a = t.collect("h");
    let b = t.collect("h");
    let c = t.collect("h");
    assert_eq!(a, Some(42));
    assert_eq!(b, Some(42));
    assert_eq!(c, Some(42));
    // the flight is gone once the last joiner collected
    assert!(t.join("h"));
}

#[test]
fn throttle_distinct_keys_are_independent() {
    let mut t: Throttle<u64> = Throttle::new();
    assert!(t.join("a"));
    assert!(t.join("b"));
    t.complete("a", 1);
    t.complete("b", 2);
    assert_eq!(t.collect("a"), Some(1));
    assert_eq!(t.collect("b"), Some(2));
}

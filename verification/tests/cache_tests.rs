use instagram_feed::cache::{TtlCache, TTL_SECONDS};
use instagram_feed::snapshot::{default_snapshot, ProfileSnapshot};

fn named_snapshot(username: &str, full_name: &str) -> ProfileSnapshot {
    let mut s = default_snapshot(username.to_string());
    s.full_name = full_name.to_string();
    s
}

#[test]
fn lookup_returns_fresh_entry() {
    let mut cache = TtlCache::new();
    cache.insert("alice".to_string(), named_snapshot("alice", "Alice"), 100);
    let got = cache.lookup(&"alice".to_string(), 100);
    assert_eq!(got, Some(named_snapshot("alice", "Alice")));
}

#[test]
fn lookup_misses_absent_key() {
    let cache = TtlCache::new();
    assert_eq!(cache.lookup(&"nobody".to_string(), 5), None);
}

#[test]
fn entry_expires_exactly_at_ttl() {
    let mut cache = TtlCache::new();
    cache.insert("alice".to_string(), named_snapshot("alice", "Alice"), 100);
    assert!(cache.lookup(&"alice".to_string(), 100 + TTL_SECONDS - 1).is_some());
    assert_eq!(cache.lookup(&"alice".to_string(), 100 + TTL_SECONDS), None);
    assert_eq!(cache.lookup(&"alice".to_string(), 100 + TTL_SECONDS + 1), None);
}

#[test]
fn entry_stamped_in_the_future_is_not_served() {
    let mut cache = TtlCache::new();
    cache.insert("alice".to_string(), named_snapshot("alice", "Alice"), 500);
    assert_eq!(cache.lookup(&"alice".to_string(), 100), None);
}

#[test]
fn insert_overwrites_existing_entry() {
    let mut cache = TtlCache::new();
    cache.insert("alice".to_string(), named_snapshot("alice", "Old"), 100);
    cache.insert("alice".to_string(), named_snapshot("alice", "New"), 200);
    assert_eq!(cache.lookup(&"alice".to_string(), 210), Some(named_snapshot("alice", "New")));
}

#[test]
fn sweep_removes_expired_and_keeps_fresh() {
    let mut cache = TtlCache::new();
    cache.insert("old".to_string(), named_snapshot("old", "O"), 0);
    cache.insert("young".to_string(), named_snapshot("young", "Y"), 3000);
    cache.sweep_expired(3700);
    assert_eq!(cache.lookup(&"old".to_string(), 3700), None);
    assert_eq!(cache.lookup(&"young".to_string(), 3700), Some(named_snapshot("young", "Y")));
}

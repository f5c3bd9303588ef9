use cdn::cache::{CacheItem, CacheStore, FLUSH_INTERVAL_SECS, TTL_NANOS};
use cdn::skin::SkinQuery;

fn query(name: &str, body: Option<u32>, feet: Option<u32>) -> SkinQuery {
    SkinQuery { name: name.to_string(), body, feet }
}

#[test]
fn ttl_is_900_seconds() {
    assert_eq!(TTL_NANOS, 900u128 * 1_000_000_000);
}

#[test]
fn entry_is_fresh_until_the_ttl_has_passed() {
    let item = CacheItem::new(vec![1, 2, 3], 1_000);
    assert_eq!(item.timestamp, 1_000);
    assert_eq!(item.data, vec![1, 2, 3]);
    assert!(item.is_acutal(1_000));
    assert!(item.is_acutal(1_000 + TTL_NANOS));
    assert!(!item.is_acutal(1_001 + TTL_NANOS));
    assert!(item.is_acutal(0));
}

#[test]
fn get_after_put_returns_the_bytes() {
    let mut cache = CacheStore::new();
    let q = query("ez", Some(322), None);
    assert_eq!(cache.get_at(&q, 5), None);
    cache.save_at(&q, &[9, 8, 7], 5);
    assert_eq!(cache.get_at(&q, 5), Some(vec![9, 8, 7]));
    assert_eq!(cache.get_at(&q, 5 + TTL_NANOS), Some(vec![9, 8, 7]));
    assert_eq!(cache.get_at(&q, 6 + TTL_NANOS), None);
    assert_eq!(cache.keys(), vec![q.clone()]);
    cache.save_at(&q, &[1], 6 + TTL_NANOS);
    assert_eq!(cache.get_at(&q, 7 + TTL_NANOS), Some(vec![1]));
}

#[test]
fn requests_that_differ_in_one_tint_are_different_entries() {
    let mut cache = CacheStore::new();
    cache.save_at(&query("ez", Some(322), None), &[1], 0);
    cache.save_at(&query("ez", None, None), &[2], 0);
    cache.save_at(&query("ez", Some(322), Some(0)), &[3], 0);
    cache.save_at(&query("ez", None, Some(322)), &[4], 0);
    assert_eq!(cache.get_at(&query("ez", Some(322), None), 1), Some(vec![1]));
    assert_eq!(cache.get_at(&query("ez", None, None), 1), Some(vec![2]));
    assert_eq!(cache.get_at(&query("ez", Some(322), Some(0)), 1), Some(vec![3]));
    assert_eq!(cache.get_at(&query("ez", None, Some(322)), 1), Some(vec![4]));
    assert_eq!(cache.get_at(&query("ez", Some(323), None), 1), None);
    assert_eq!(cache.get_at(&query("e", Some(322), None), 1), None);
    assert_eq!(cache.keys().len(), 4);
}

#[test]
fn flush_removes_fresh_and_stale_entries() {
    let mut cache = CacheStore::new();
    let fresh = query("a", None, None);
    let stale = query("b", Some(1), Some(2));
    cache.save_at(&stale, &[1], 0);
    cache.save_at(&fresh, &[2], TTL_NANOS + 10);
    let now = TTL_NANOS + 20;
    assert_eq!(cache.get_at(&stale, now), None);
    assert_eq!(cache.get_at(&fresh, now), Some(vec![2]));
    assert_eq!(cache.keys().len(), 2);
    assert_eq!(cache.flush_all(), 2);
    assert_eq!(cache.get_at(&stale, now), None);
    assert_eq!(cache.get_at(&fresh, now), None);
    assert_eq!(cache.get_at(&stale, 0), None);
    assert!(cache.keys().is_empty());
    assert_eq!(cache.flush_all(), 0);
}

#[test]
fn cache_with_its_own_clock_serves_what_was_just_stored() {
    let mut cache = CacheStore::new();
    let q = query("ez", Some(322), None);
    assert_eq!(cache.get(&q), None);
    cache.save(&q, &[4, 5]);
    assert_eq!(cache.get(&q), Some(vec![4, 5]));
    assert_eq!(cache.get(&query("ez", None, None)), None);
}

#[test]
fn cache_is_flushed_every_hour() {
    assert_eq!(FLUSH_INTERVAL_SECS, 60 * 60);
}

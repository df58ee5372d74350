use std::cell::Cell;

use kalandra_kapital::cache::{create_request_cache, setup_environment, RequestCache};

#[test]
fn fresh_cache_is_empty() {
    let cache = create_request_cache();
    assert_eq!(cache.len(), 0);
    let cache = setup_environment();
    assert_eq!(cache.len(), 0);
}

#[test]
fn store_then_lookup_returns_the_payload() {
    let mut cache = RequestCache::new();
    cache.store(b"key-a".to_vec(), b"payload-a".to_vec());
    assert_eq!(cache.lookup(b"key-a").map(|p| p.clone()), Some(b"payload-a".to_vec()));
}

#[test]
fn lookup_of_unknown_key_misses() {
    let mut cache = RequestCache::new();
    cache.store(b"key-a".to_vec(), b"payload-a".to_vec());
    assert!(cache.lookup(b"key-b").is_none());
}

#[test]
fn earliest_write_wins_on_duplicate_keys() {
    let mut cache = RequestCache::new();
    cache.store(b"key".to_vec(), b"first".to_vec());
    cache.store(b"key".to_vec(), b"second".to_vec());
    assert_eq!(cache.lookup(b"key").map(|p| p.clone()), Some(b"first".to_vec()));
    assert_eq!(cache.len(), 2);
}

#[test]
fn get_or_fetch_hit_does_not_invoke_fetch() {
    let mut cache = RequestCache::new();
    cache.store(b"key".to_vec(), b"cached".to_vec());
    let calls = Cell::new(0u32);
    let fetched: Result<Vec<u8>, String> = cache.get_or_fetch(b"key", || {
        calls.set(calls.get() + 1);
        Ok(b"from-network".to_vec())
    });
    assert_eq!(fetched, Ok(b"cached".to_vec()));
    assert_eq!(calls.get(), 0);
    assert_eq!(cache.len(), 1);
}

#[test]
fn get_or_fetch_miss_invokes_fetch_once_and_stores() {
    let mut cache = RequestCache::new();
    let calls = Cell::new(0u32);
    let fetched: Result<Vec<u8>, String> = cache.get_or_fetch(b"key", || {
        calls.set(calls.get() + 1);
        Ok(b"from-network".to_vec())
    });
    assert_eq!(fetched, Ok(b"from-network".to_vec()));
    assert_eq!(calls.get(), 1);
    assert_eq!(cache.lookup(b"key").map(|p| p.clone()), Some(b"from-network".to_vec()));
}

#[test]
fn get_or_fetch_failure_stores_nothing() {
    let mut cache = RequestCache::new();
    let fetched: Result<Vec<u8>, String> = cache.get_or_fetch(b"key", || {
        Err("connection refused".to_string())
    });
    assert_eq!(fetched, Err("connection refused".to_string()));
    assert_eq!(cache.len(), 0);
    assert!(cache.lookup(b"key").is_none());
}

#[test]
fn entries_round_trip_through_from_entries() {
    let mut cache = RequestCache::new();
    cache.store(b"a".to_vec(), b"1".to_vec());
    cache.store(b"b".to_vec(), b"2".to_vec());
    let entries = cache.entries();
    assert_eq!(entries.len(), 2);
    assert_eq!(entries[0].key, b"a".to_vec());
    assert_eq!(entries[1].payload, b"2".to_vec());
}

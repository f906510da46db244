use qrcode_api::cache::{RequestCache, MAX_ENTRIES, TTL_SECONDS};

#[test]
fn insert_then_get_returns_bytes() {
    let mut c = RequestCache::new(4, 10);
    c.insert(7, vec![1, 2, 3], 100);
    assert_eq!(c.get(7, 100), Some(vec![1, 2, 3]));
    assert_eq!(c.get(8, 100), None);
}

#[test]
fn entries_expire_after_ttl() {
    let mut c = RequestCache::new(4, 10);
    c.insert(7, vec![1], 100);
    assert_eq!(c.get(7, 109), Some(vec![1]));
    assert_eq!(c.get(7, 110), None);
    assert_eq!(c.get(7, 5000), None);
    // Still stored: expiry does not depend on eviction.
    assert_eq!(c.len(), 1);
}

#[test]
fn expiry_is_not_sliding() {
    let mut c = RequestCache::new(4, 10);
    c.insert(1, vec![5], 0);
    for t in 0..10 {
        assert_eq!(c.get(1, t), Some(vec![5]));
    }
    assert_eq!(c.get(1, 10), None);
}

#[test]
fn overwrite_replaces_payload_and_restarts_age() {
    let mut c = RequestCache::new(4, 10);
    c.insert(1, vec![1], 0);
    c.insert(1, vec![2], 8);
    assert_eq!(c.len(), 1);
    assert_eq!(c.get(1, 15), Some(vec![2]));
}

#[test]
fn capacity_is_never_exceeded() {
    let mut c = RequestCache::new(3, 1000);
    for k in 0..20u64 {
        c.insert(k, vec![k as u8], k);
        assert!(c.len() <= 3);
    }
    assert_eq!(c.len(), 3);
    // The oldest entries were evicted.
    assert_eq!(c.get(0, 20), None);
    assert_eq!(c.get(16, 20), None);
    assert_eq!(c.get(17, 20), Some(vec![17]));
    assert_eq!(c.get(19, 20), Some(vec![19]));
}

#[test]
fn zero_capacity_stores_nothing() {
    let mut c = RequestCache::new(0, 1000);
    c.insert(1, vec![1], 0);
    assert_eq!(c.len(), 0);
    assert_eq!(c.get(1, 0), None);
}

#[test]
fn standard_cache_bounds() {
    assert_eq!(MAX_ENTRIES, 1000);
    assert_eq!(TTL_SECONDS, 300);
    let mut c = RequestCache::standard();
    for k in 0..1005u64 {
        c.insert(k, vec![], 0);
    }
    assert_eq!(c.len(), 1000);
    assert_eq!(c.get(1004, 299), Some(vec![]));
    assert_eq!(c.get(1004, 300), None);
}

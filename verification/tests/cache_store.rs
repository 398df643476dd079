use shadowstep::cache::CdnCache;

fn sample_headers() -> Vec<(String, String)> {
    vec![(String::from("content-type"), String::from("text/plain"))]
}

#[test]
fn cache_hit_idempotence_within_ttl() {
    let mut cache = CdnCache::new(1, 10);
    cache.insert(
        String::from("/users?id=5"),
        200,
        sample_headers(),
        b"hello".to_vec(),
        100,
    );
    for now in [100u64, 101, 105, 109] {
        let hit = cache.get("/users?id=5", now).expect("entry should be live");
        assert_eq!(hit.status, 200);
        assert_eq!(hit.body, b"hello".to_vec());
        assert_eq!(hit.headers, sample_headers());
    }
}

#[test]
fn ttl_boundary_expiry() {
    let mut cache = CdnCache::new(1, 10);
    cache.insert(String::from("/a"), 200, Vec::new(), b"x".to_vec(), 100);
    // strictly before insertion time + TTL: present
    assert!(cache.get("/a", 109).is_some());
    // at insertion time + TTL and after: absent
    assert!(cache.get("/a", 110).is_none());
    assert!(cache.get("/a", 200).is_none());
    // the entry still counts until replaced or evicted
    assert_eq!(cache.len(), 1);
}

#[test]
fn get_unknown_key_is_none() {
    let cache = CdnCache::new(1, 10);
    assert!(cache.get("/missing", 0).is_none());
}

#[test]
fn insert_replaces_wholesale() {
    let mut cache = CdnCache::new(1, 10);
    cache.insert(String::from("/a"), 200, Vec::new(), b"one".to_vec(), 100);
    cache.insert(String::from("/a"), 201, Vec::new(), b"two".to_vec(), 105);
    assert_eq!(cache.len(), 1);
    let hit = cache.get("/a", 106).expect("replaced entry should be live");
    assert_eq!(hit.status, 201);
    assert_eq!(hit.body, b"two".to_vec());
    // the replacement restarted the TTL clock
    assert!(cache.get("/a", 114).is_some());
    assert!(cache.get("/a", 115).is_none());
}

#[test]
fn capacity_stays_bounded() {
    // 1 MB budget divided by ~10 KB per entry: 102 entries at most
    let mut cache = CdnCache::new(1, 1000);
    for i in 0..200u64 {
        cache.insert(format!("/item/{}", i), 200, Vec::new(), b"x".to_vec(), i);
    }
    assert!(cache.len() <= 102);
}

#[test]
fn zero_capacity_stores_nothing() {
    let mut cache = CdnCache::new(0, 1000);
    cache.insert(String::from("/a"), 200, Vec::new(), b"x".to_vec(), 0);
    assert_eq!(cache.len(), 0);
    assert!(cache.get("/a", 0).is_none());
}

#[test]
fn invalidate_removes_only_that_key() {
    let mut cache = CdnCache::new(1, 100);
    cache.insert(String::from("/a"), 200, Vec::new(), b"a".to_vec(), 0);
    cache.insert(String::from("/b"), 200, Vec::new(), b"b".to_vec(), 0);
    cache.invalidate("/a");
    assert_eq!(cache.len(), 1);
    assert!(cache.get("/a", 1).is_none());
    assert!(cache.get("/b", 1).is_some());
}

#[test]
fn clear_empties_the_store() {
    let mut cache = CdnCache::new(1, 100);
    cache.insert(String::from("/a"), 200, Vec::new(), b"a".to_vec(), 0);
    cache.insert(String::from("/b"), 200, Vec::new(), b"b".to_vec(), 0);
    cache.clear();
    assert_eq!(cache.len(), 0);
    assert!(cache.get("/a", 1).is_none());
}

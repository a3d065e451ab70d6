use averagedb_api::cache::{ItemCache, CACHE_CAPACITY};

fn s(x: &str) -> String {
    x.to_string()
}

#[test]
fn new_cache_is_empty() {
    let c = ItemCache::new();
    assert!(!c.contains(&s("anything")));
    assert_eq!(CACHE_CAPACITY, 10000);
}

#[test]
fn put_then_get_returns_value() {
    let mut c = ItemCache::with_capacity(3);
    assert_eq!(c.put(s("a"), s("1")), None);
    assert_eq!(c.get(&s("a")), Some(s("1")));
    assert!(c.contains(&s("a")));
}

#[test]
fn put_existing_key_returns_old_value() {
    let mut c = ItemCache::with_capacity(2);
    assert_eq!(c.put(s("k"), s("old")), None);
    assert_eq!(c.put(s("k"), s("new")), Some(s("old")));
    assert_eq!(c.get(&s("k")), Some(s("new")));
}

#[test]
fn full_cache_evicts_least_recently_used() {
    let mut c = ItemCache::with_capacity(2);
    c.put(s("a"), s("1"));
    c.put(s("b"), s("2"));
    c.put(s("c"), s("3"));
    assert!(!c.contains(&s("a")));
    assert_eq!(c.get(&s("b")), Some(s("2")));
    assert_eq!(c.get(&s("c")), Some(s("3")));
}

#[test]
fn get_refreshes_recency() {
    let mut c = ItemCache::with_capacity(2);
    c.put(s("a"), s("1"));
    c.put(s("b"), s("2"));
    assert_eq!(c.get(&s("a")), Some(s("1")));
    c.put(s("c"), s("3"));
    assert!(c.contains(&s("a")));
    assert!(!c.contains(&s("b")));
    assert!(c.contains(&s("c")));
}

#[test]
fn contains_does_not_refresh_recency() {
    let mut c = ItemCache::with_capacity(2);
    c.put(s("a"), s("1"));
    c.put(s("b"), s("2"));
    assert!(c.contains(&s("a")));
    c.put(s("c"), s("3"));
    assert!(!c.contains(&s("a")));
    assert!(c.contains(&s("b")));
}

#[test]
fn updating_existing_key_in_full_cache_evicts_nothing() {
    let mut c = ItemCache::with_capacity(2);
    c.put(s("a"), s("1"));
    c.put(s("b"), s("2"));
    c.put(s("a"), s("9"));
    assert_eq!(c.get(&s("a")), Some(s("9")));
    assert_eq!(c.get(&s("b")), Some(s("2")));
}

#[test]
fn get_missing_key_is_none() {
    let mut c = ItemCache::with_capacity(1);
    c.put(s("a"), s("1"));
    assert_eq!(c.get(&s("z")), None);
    assert_eq!(c.get(&s("a")), Some(s("1")));
}

use averagedb_api::ads::{ad_at, get_random_ad, ADS, AD_COUNT};
use averagedb_api::cache::ItemCache;
use averagedb_api::service::{
    add_item, check_for_key, draw_api_key_number, issue_from_draws, combined_item_key, get_api_key, get_random_string, gibs_item, gibs_key,
    health2, lookup_item, register_api_key, sorry_bud_delay_ms, store_item, ItemRejection, Key,
    KeyRejection, TestType, API_KEY_HEADER, ENTERPRISE_PREFIX, HEALTHY_MESSAGE, KEY_ATTEMPTS,
    KEYS_EXHAUSTED_MESSAGE, MAX_API_KEY, MAX_DELAY_MS, MIN_API_KEY, MIN_DELAY_MS, RANDOM_SUFFIX_LEN,
    ROOT_MESSAGE, STORED_MESSAGE,
};

fn s(x: &str) -> String {
    x.to_string()
}

fn is_ad(x: &str) -> bool {
    ADS.iter().any(|a| *a == x)
}

#[test]
fn constants() {
    assert_eq!(API_KEY_HEADER, "x-averagedb-api-key");
    assert_eq!(ENTERPRISE_PREFIX, "enterprise-");
    assert_eq!(RANDOM_SUFFIX_LEN, 20);
    assert_eq!(KEY_ATTEMPTS, 10);
    assert_eq!(AD_COUNT, 100);
    assert_eq!(ROOT_MESSAGE, "Are you an idiot? Did you forget to look at the docs?");
}

#[test]
fn missing_header_is_unauthorized() {
    let c = ItemCache::new();
    let r = check_for_key(&c, None);
    assert_eq!(r, Err(KeyRejection::MissingKey));
    let e = r.unwrap_err();
    assert_eq!(e.status(), 401);
    assert_eq!(e.message(), "You must provide an API key in the 'x-averagedb-api-key' header");
}

#[test]
fn invalid_characters_are_bad_request() {
    let c = ItemCache::new();
    let r = check_for_key(&c, Some("enterprise-ä".as_bytes()));
    assert_eq!(r, Err(KeyRejection::InvalidCharacters));
    assert_eq!(KeyRejection::InvalidCharacters.status(), 400);
    assert_eq!(
        KeyRejection::InvalidCharacters.message(),
        "The 'x-averagedb-api-key' header contains invalid characters"
    );
}

#[test]
fn empty_key_is_bad_request() {
    let c = ItemCache::new();
    assert_eq!(check_for_key(&c, Some(b"")), Err(KeyRejection::EmptyKey));
    assert_eq!(KeyRejection::EmptyKey.status(), 400);
    assert_eq!(KeyRejection::EmptyKey.message(), "The 'x-averagedb-api-key' header must not be empty");
}

#[test]
fn unknown_key_is_unauthorized() {
    let c = ItemCache::new();
    assert_eq!(check_for_key(&c, Some(b"12345")), Err(KeyRejection::UnknownKey));
    assert_eq!(KeyRejection::UnknownKey.status(), 401);
    assert_eq!(KeyRejection::UnknownKey.message(), "No way, Jose. Fix your API key. Figure it out.");
}

#[test]
fn enterprise_key_is_accepted_without_registration() {
    let c = ItemCache::new();
    assert_eq!(check_for_key(&c, Some(b"enterprise-acme")), Ok(s("enterprise-acme")));
    assert_eq!(check_for_key(&c, Some(b"enterprise-")), Ok(s("enterprise-")));
    assert_eq!(check_for_key(&c, Some(b"enterprise")), Err(KeyRejection::UnknownKey));
}

#[test]
fn registered_key_is_accepted() {
    let mut c = ItemCache::new();
    assert!(register_api_key(&mut c, s("4242")));
    assert_eq!(check_for_key(&c, Some(b"4242")), Ok(s("4242")));
    assert!(!register_api_key(&mut c, s("4242")));
    assert_eq!(c.get(&s("4242")), Some(s("1")));
}

#[test]
fn issued_key_is_accepted() {
    let mut c = ItemCache::new();
    let resp = gibs_key(&mut c).ok().unwrap();
    let n: u64 = resp.api_key.parse().unwrap();
    assert!(MIN_API_KEY <= n && n <= MAX_API_KEY);
    assert_eq!(resp.api_key, n.to_string());
    assert!(is_ad(&resp.brought_to_you_by));
    assert_eq!(check_for_key(&c, Some(resp.api_key.as_bytes())), Ok(resp.api_key.clone()));
    assert_eq!(c.get(&resp.api_key), Some(s("1")));
}

#[test]
fn gibs_key_gives_up_when_every_key_is_taken() {
    let mut c = ItemCache::with_capacity(1000001);
    for n in MIN_API_KEY..=MAX_API_KEY {
        c.put(n.to_string(), s("1"));
    }
    let r = gibs_key(&mut c);
    let e = r.err().unwrap();
    assert_eq!(e.message, KEYS_EXHAUSTED_MESSAGE);
    assert_eq!(e.message, "Failed to generate a unique API key sorry bud we're not experts");
}

#[test]
fn random_string_is_alphanumeric() {
    for _ in 0..50 {
        let r = get_random_string();
        assert_eq!(r.len(), 20);
        assert!(r.chars().all(|c| c.is_ascii_alphanumeric()));
    }
}

#[test]
fn random_strings_differ() {
    assert_ne!(get_random_string(), get_random_string());
}

#[test]
fn api_keys_are_in_range() {
    let mut seen = std::collections::HashSet::new();
    for _ in 0..200 {
        let k = get_api_key();
        let n: u64 = k.parse().unwrap();
        assert!((1..=1000000).contains(&n));
        assert_eq!(k, n.to_string());
        seen.insert(n);
    }
    assert!(seen.len() > 1);
}

#[test]
fn delay_is_in_range() {
    let mut seen = std::collections::HashSet::new();
    for _ in 0..200 {
        let d = sorry_bud_delay_ms();
        assert!(MIN_DELAY_MS <= d && d <= MAX_DELAY_MS);
        seen.insert(d);
    }
    assert!(seen.len() > 1);
    assert_eq!((MIN_DELAY_MS, MAX_DELAY_MS), (1, 1500));
}

#[test]
fn ads_are_from_the_list() {
    assert_eq!(ad_at(0), "Tempur-Pedic: Experience the ultimate comfort with Tempur-Pedic mattresses.");
    assert_eq!(ad_at(68), "GameStop: Do you like losing money?");
    assert_eq!(ad_at(99), "NordicTrack: Stay fit with NordicTrack's new treadmill models.");
    let mut seen = std::collections::HashSet::new();
    for _ in 0..100 {
        let ad = get_random_ad();
        assert!(is_ad(&ad));
        seen.insert(ad);
    }
    assert!(seen.len() > 1);
}

#[test]
fn health_report() {
    let h = health2();
    assert_eq!(h.message, "Yeah");
    assert_eq!(HEALTHY_MESSAGE, "Yeah");
    assert!(is_ad(&h.brought_to_you_by));
}

#[test]
fn combined_key_format() {
    assert_eq!(combined_item_key("77", "abc"), "77:abc");
    assert_eq!(combined_item_key("", ""), ":");
}

#[test]
fn stored_item_reads_back() {
    let mut c = ItemCache::new();
    let key = store_item(&mut c, "77", "abcdefghij0123456789", s("payload"));
    assert_eq!(key, "77:abcdefghij0123456789");
    assert_eq!(lookup_item(&mut c, "77", &key), Ok(s("payload")));
}

#[test]
fn add_item_then_gibs_item() {
    let mut c = ItemCache::new();
    let receipt = add_item(&mut c, "enterprise-acme", TestType { data: s("hello") });
    assert_eq!(receipt.message, STORED_MESSAGE);
    assert_eq!(receipt.message, "Great success!");
    assert!(receipt.key.starts_with("enterprise-acme:"));
    let suffix = &receipt.key["enterprise-acme:".len()..];
    assert_eq!(suffix.len(), 20);
    assert!(suffix.chars().all(|ch| ch.is_ascii_alphanumeric()));
    assert!(is_ad(&receipt.brought_to_you_by));
    let resp = gibs_item(&mut c, "enterprise-acme", &Key { key: receipt.key.clone() }).ok().unwrap();
    assert_eq!(resp.value, "hello");
    assert!(is_ad(&resp.brought_to_you_by));
}

#[test]
fn api_key_with_colon_cannot_read_its_items() {
    let mut c = ItemCache::new();
    let receipt = add_item(&mut c, "enterprise-a:b", TestType { data: s("x") });
    let r = gibs_item(&mut c, "enterprise-a:b", &Key { key: receipt.key });
    assert_eq!(r.err(), Some(ItemRejection::KeyMismatch));
}

#[test]
fn empty_query_key_is_bad_request() {
    let mut c = ItemCache::new();
    let r = gibs_item(&mut c, "77", &Key { key: s("") });
    assert_eq!(r.err(), Some(ItemRejection::MissingKey));
    assert_eq!(ItemRejection::MissingKey.status(), 400);
    assert_eq!(ItemRejection::MissingKey.message(), "You must provide a key in the query string");
}

#[test]
fn foreign_query_key_is_unauthorized() {
    let mut c = ItemCache::new();
    store_item(&mut c, "77", "x", s("secret"));
    let r = gibs_item(&mut c, "78", &Key { key: s("77:x") });
    assert_eq!(r.err(), Some(ItemRejection::KeyMismatch));
    assert_eq!(ItemRejection::KeyMismatch.status(), 401);
    assert_eq!(ItemRejection::KeyMismatch.message(), "Query key must match api key in header");
}

#[test]
fn unknown_item_is_not_found() {
    let mut c = ItemCache::new();
    let r = gibs_item(&mut c, "77", &Key { key: s("77:nothing") });
    assert_eq!(r.err(), Some(ItemRejection::NotFound));
    assert_eq!(ItemRejection::NotFound.status(), 404);
    assert_eq!(
        ItemRejection::NotFound.message(),
        "No item found with this key. It might have been deleted.. 🤷"
    );
}

#[test]
fn key_without_colon_is_its_own_prefix() {
    let mut c = ItemCache::new();
    c.put(s("77"), s("1"));
    assert_eq!(lookup_item(&mut c, "77", "77"), Ok(s("1")));
}

#[test]
fn refused_read_changes_nothing() {
    let mut c = ItemCache::with_capacity(2);
    store_item(&mut c, "a", "1", s("x"));
    store_item(&mut c, "a", "2", s("y"));
    assert_eq!(lookup_item(&mut c, "b", "a:1"), Err(ItemRejection::KeyMismatch));
    assert_eq!(lookup_item(&mut c, "a", "a:3"), Err(ItemRejection::NotFound));
    store_item(&mut c, "a", "3", s("z"));
    assert!(!c.contains(&s("a:1")));
    assert!(c.contains(&s("a:2")));
}

#[test]
fn successful_read_refreshes_item() {
    let mut c = ItemCache::with_capacity(2);
    store_item(&mut c, "a", "1", s("x"));
    store_item(&mut c, "a", "2", s("y"));
    assert_eq!(lookup_item(&mut c, "a", "a:1"), Ok(s("x")));
    store_item(&mut c, "a", "3", s("z"));
    assert!(c.contains(&s("a:1")));
    assert!(!c.contains(&s("a:2")));
}

#[test]
fn issue_from_draws_takes_first_fresh_draw() {
    let mut c = ItemCache::new();
    c.put(s("5"), s("1"));
    c.put(s("6"), s("1"));
    assert_eq!(issue_from_draws(&mut c, &vec![5, 6, 7, 8]), Some(s("7")));
    assert_eq!(c.get(&s("7")), Some(s("1")));
    assert!(!c.contains(&s("8")));
}

#[test]
fn issue_from_draws_all_taken_issues_nothing() {
    let mut c = ItemCache::with_capacity(2);
    c.put(s("5"), s("1"));
    c.put(s("6"), s("1"));
    assert_eq!(issue_from_draws(&mut c, &vec![6, 5, 6]), None);
    assert_eq!(issue_from_draws(&mut c, &vec![]), None);
    c.put(s("9"), s("1"));
    assert!(!c.contains(&s("5")));
    assert!(c.contains(&s("6")));
}

#[test]
fn gibs_key_on_empty_cache_succeeds() {
    for _ in 0..20 {
        let mut c = ItemCache::new();
        assert!(gibs_key(&mut c).is_ok());
    }
}

#[test]
fn drawn_numbers_are_in_range() {
    for _ in 0..100 {
        let n = draw_api_key_number();
        assert!(MIN_API_KEY <= n && n <= MAX_API_KEY);
    }
}

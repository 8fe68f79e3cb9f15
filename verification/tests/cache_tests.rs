use smotrim_rss_proxy::cache::{is_fresh, plan_request, FeedCache, RequestStep};

#[test]
fn bad_brand_id_is_rejected() {
    let cache = FeedCache::new();
    let r = plan_request(&cache, "abc", 20, 600, 1_000_000);
    assert!(matches!(r, RequestStep::BadRequest));
    assert!(matches!(
        plan_request(&cache, "", 20, 600, 1_000_000),
        RequestStep::BadRequest
    ));
    assert!(matches!(
        plan_request(&cache, "12x", 20, 600, 1_000_000),
        RequestStep::BadRequest
    ));
}

#[test]
fn empty_cache_asks_for_a_fetch() {
    let cache = FeedCache::new();
    match plan_request(&cache, "77", 20, 600, 1_000_000) {
        RequestStep::Refresh { brand_id, url } => {
            assert_eq!(brand_id, 77);
            assert_eq!(url, "https://smotrim.ru/api/audios?brandId=77&limit=20");
        },
        _ => panic!("expected a refresh"),
    }
}

#[test]
fn second_request_within_lifetime_serves_stored_body() {
    let mut cache = FeedCache::new();
    let t1: i64 = 1_000_000;
    cache.store(77, "<rss>payload</rss>".to_owned(), t1);
    // Within the lifetime the stored body comes back byte for byte, under
    // the first request's stamp, and no fetch is asked for.
    match plan_request(&cache, "77", 20, 600, t1 + 599) {
        RequestStep::Serve { body, cached_at } => {
            assert_eq!(body, "<rss>payload</rss>");
            assert_eq!(cached_at, t1);
        },
        _ => panic!("expected a cached answer"),
    }
    // A different brand still needs a fetch.
    assert!(matches!(
        plan_request(&cache, "78", 20, 600, t1 + 1),
        RequestStep::Refresh { .. }
    ));
}

#[test]
fn expired_entry_triggers_one_refresh_with_new_stamp() {
    let mut cache = FeedCache::new();
    let t1: i64 = 1_000_000;
    cache.store(77, "<rss>old</rss>".to_owned(), t1);
    let t2 = t1 + 600;
    assert!(matches!(
        plan_request(&cache, "77", 20, 600, t2),
        RequestStep::Refresh { brand_id: 77, .. }
    ));
    cache.store(77, "<rss>new</rss>".to_owned(), t2);
    match plan_request(&cache, "77", 20, 600, t2 + 1) {
        RequestStep::Serve { body, cached_at } => {
            assert_eq!(body, "<rss>new</rss>");
            assert_eq!(cached_at, t2);
        },
        _ => panic!("expected the refreshed entry"),
    }
}

#[test]
fn freshness_boundary_is_strict() {
    assert!(is_fresh(1_000_599, 1_000_000, 600));
    assert!(!is_fresh(1_000_600, 1_000_000, 600));
    // The rule follows the stored stamp even if the clock moved backwards.
    assert!(is_fresh(999_000, 1_000_000, 600));
    // Extreme clock values do not overflow the comparison.
    assert!(!is_fresh(i64::MAX, i64::MIN, 600));
}

use aster::web::SearchResult;
use aster::web_cache::{is_fresh, WebCache, WEB_FETCH_CACHE_TTL_NANOS, WEB_SEARCH_CACHE_TTL_NANOS};

const SECOND: u64 = 1_000_000_000;

#[test]
fn test_web_cache_creation() {
    let cache = WebCache::new();
    assert_eq!(cache.stats(), ((0, 100), (0, 500)));
}

#[test]
fn pages_go_stale_after_fifteen_minutes() {
    let mut cache = WebCache::new();
    cache.cache_content("https://a.example".to_string(), "body".to_string(), 1_000 * SECOND);
    assert_eq!(cache.get_cached_content("https://a.example", 1_000 * SECOND + 899 * SECOND), Some("body".to_string()));
    assert_eq!(cache.get_cached_content("https://b.example", 1_000 * SECOND), None);
    assert_eq!(cache.get_cached_content("https://a.example", 1_000 * SECOND + WEB_FETCH_CACHE_TTL_NANOS), None);
    assert_eq!(cache.stats().0 .0, 0);
    cache.cache_content("https://a.example".to_string(), "body".to_string(), 5 * SECOND);
    assert_eq!(cache.get_cached_content("https://a.example", 4 * SECOND), None);
}

#[test]
fn searches_report_their_age() {
    let mut cache = WebCache::new();
    let hit = SearchResult { title: "t".to_string(), url: "https://x".to_string(), snippet: None, publish_date: None };
    cache.cache_search("k".to_string(), vec![hit], 10 * SECOND);
    let (results, age) = cache.get_cached_search("k", 10 * SECOND + 125 * SECOND + 3).unwrap();
    assert_eq!(results.len(), 1);
    assert_eq!(age, 125);
    assert!(cache.get_cached_search("k", 10 * SECOND + WEB_SEARCH_CACHE_TTL_NANOS).is_none());
    cache.clear();
    assert_eq!(cache.stats(), ((0, 100), (0, 500)));
}

#[test]
fn page_cache_keeps_at_most_one_hundred() {
    let mut cache = WebCache::new();
    for i in 0..150u64 {
        cache.cache_content(format!("https://{}.example", i), "x".to_string(), SECOND);
    }
    assert_eq!(cache.stats().0, (100, 100));
    assert!(cache.get_cached_content("https://0.example", SECOND).is_none());
    assert!(cache.get_cached_content("https://149.example", SECOND).is_some());
}

#[test]
fn freshness_is_strict() {
    assert!(is_fresh(0, 9, 10));
    assert!(!is_fresh(0, 10, 10));
    assert!(!is_fresh(5, 4, 10));
}

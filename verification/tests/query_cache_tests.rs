use socrates_core::docstore::cache_key;
use socrates_core::hits::{DocumentMetadata, QueryHit};
use socrates_core::query_cache::{ttl_ms_of, CacheConfig, QueryCache};

fn hit(doc: &str) -> QueryHit {
    QueryHit {
        document: doc.to_string(),
        metadata: DocumentMetadata {
            source: "s".to_string(),
            document_type: "t".to_string(),
            language: None,
            timestamp: String::new(),
            file_path: None,
            url: None,
            title: None,
            additional: String::new(),
        },
        matches: 1,
        keyword_count: 1,
        id: doc.to_string(),
    }
}

fn config(max_entries: usize) -> CacheConfig {
    CacheConfig { enabled: true, max_entries, default_ttl_seconds: 10, cleanup_interval_seconds: 60 }
}

#[test]
fn default_cache_config() {
    let cfg = CacheConfig::default();
    assert!(cfg.enabled);
    assert_eq!(cfg.max_entries, 1000);
    assert_eq!(cfg.default_ttl_seconds, 300);
    assert_eq!(cfg.cleanup_interval_seconds, 60);
    assert_eq!(ttl_ms_of(300), 300_000);
    assert_eq!(ttl_ms_of(u64::MAX), u64::MAX);
}

#[test]
fn stored_results_are_found_until_they_expire() {
    let mut c = QueryCache::new(config(10));
    c.put("k".to_string(), "c".to_string(), vec![hit("a")], None, 1_000);
    let found = c.get("k", 5_000).unwrap();
    assert_eq!(found.len(), 1);
    assert_eq!(found[0].document, "a");
    assert_eq!(c.hit_count, 1);
    assert_eq!(c.entries.get("k").unwrap().hit_count, 1);
    assert!(c.get("k", 11_001).is_none());
    assert_eq!(c.miss_count, 1);
    assert!(!c.entries.contains_key("k"));
    assert!(c.get("other", 0).is_none());
    assert_eq!(c.miss_count, 2);
}

#[test]
fn custom_time_to_live() {
    let mut c = QueryCache::new(config(10));
    c.put("k".to_string(), "c".to_string(), vec![], Some(100), 0);
    assert!(c.get("k", 100).is_some());
    assert!(c.get("k", 101).is_none());
}

#[test]
fn disabled_cache_keeps_nothing() {
    let mut cfg = config(10);
    cfg.enabled = false;
    let mut c = QueryCache::new(cfg);
    c.put("k".to_string(), "c".to_string(), vec![hit("a")], None, 0);
    assert!(c.get("k", 1).is_none());
    assert_eq!(c.miss_count, 0);
    assert_eq!(c.entries.len(), 0);
}

#[test]
fn full_cache_drops_its_oldest_quarter() {
    let mut c = QueryCache::new(config(4));
    for (i, k) in ["a", "b", "c", "d"].iter().enumerate() {
        c.put(k.to_string(), "c".to_string(), vec![], None, (i as u64) * 10);
    }
    c.put("e".to_string(), "c".to_string(), vec![], None, 100);
    assert_eq!(c.entries.len(), 4);
    assert!(!c.entries.contains_key("a"));
    assert!(c.entries.contains_key("b"));
    assert!(c.entries.contains_key("e"));
}

#[test]
fn invalidation_drops_the_collection_entries() {
    let mut c = QueryCache::new(config(10));
    c.put("query_1a".to_string(), "docs".to_string(), vec![], None, 0);
    c.put("query_2b".to_string(), "docs".to_string(), vec![], None, 0);
    c.put("query_3c".to_string(), "notes".to_string(), vec![], None, 0);
    c.invalidate_collection("docs");
    assert!(!c.entries.contains_key("query_1a"));
    assert!(!c.entries.contains_key("query_2b"));
    assert!(c.entries.contains_key("query_3c"));
}

#[test]
fn expired_entries_are_swept() {
    let mut c = QueryCache::new(config(10));
    c.put("old".to_string(), "c".to_string(), vec![], Some(5), 0);
    c.put("new".to_string(), "c".to_string(), vec![], Some(5), 100);
    c.cleanup_expired_entries(103);
    assert!(!c.entries.contains_key("old"));
    assert!(c.entries.contains_key("new"));
    let s = c.get_stats(4_103);
    assert_eq!(s.total_entries, 1);
    assert_eq!(s.memory_usage_bytes, 1024);
    assert_eq!(s.oldest_entry_age_seconds, Some(4));
    c.clear();
    assert_eq!(c.get_stats(0).total_entries, 0);
    assert_eq!(c.get_stats(0).oldest_entry_age_seconds, None);
}

#[test]
fn cache_keys_are_digests() {
    let a = cache_key("docs", "rust", 5, None);
    let b = cache_key("docs", "rust", 5, None);
    let c = cache_key("docs", "rust", 6, None);
    let d = cache_key("docs", "rust", 5, Some("{\"k\":\"v\"}"));
    assert!(a.starts_with("query_"));
    assert!(a[6..].chars().all(|ch| ch.is_ascii_hexdigit() && !ch.is_ascii_uppercase()));
    assert_eq!(a, b);
    assert_ne!(a, c);
    assert_ne!(a, d);
}

use fuse::inference::cache::{CacheConfig, InferenceCache};
use std::collections::hash_map::DefaultHasher;
use std::hash::{Hash, Hasher};

fn test_cache() -> InferenceCache {
    InferenceCache::new(CacheConfig { enabled: true, max_entries: 5, ttl_seconds: 60 })
}

#[test]
fn test_cache_config_default() {
    let config = CacheConfig::default();
    assert!(config.enabled);
    assert_eq!(config.max_entries, 1000);
    assert_eq!(config.ttl_seconds, 3600);
}

#[test]
fn test_cache_miss() {
    let mut cache = test_cache();
    assert!(cache.get("nonexistent", 0).is_none());
    assert_eq!(cache.misses(), 1);
}

#[test]
fn test_cache_hit() {
    let mut cache = test_cache();
    cache.set("key1".to_string(), "value1".to_string(), 0);
    assert_eq!(cache.get("key1", 0), Some("value1".to_string()));
    assert_eq!(cache.hits(), 1);
}

#[test]
fn test_cache_contains() {
    let mut cache = test_cache();
    assert!(!cache.contains("key1", 0));
    cache.set("key1".to_string(), "value1".to_string(), 0);
    assert!(cache.contains("key1", 0));
}

#[test]
fn test_cache_eviction() {
    let mut cache = test_cache();
    for i in 0..7 {
        cache.set(format!("key{}", i), format!("value{}", i), 0);
    }
    assert!(cache.entry_count() <= 5);
    assert!(cache.evictions() > 0);
}

#[test]
fn test_cache_clear() {
    let mut cache = test_cache();
    cache.set("key1".to_string(), "value1".to_string(), 0);
    cache.set("key2".to_string(), "value2".to_string(), 0);
    cache.clear();
    assert_eq!(cache.entry_count(), 0);
    assert!(cache.get("key1", 0).is_none());
}

#[test]
fn test_cache_disabled() {
    let mut cache = InferenceCache::new(CacheConfig { enabled: false, max_entries: 10, ttl_seconds: 60 });
    cache.set("key1".to_string(), "value1".to_string(), 0);
    assert!(cache.get("key1", 0).is_none());
    assert!(!cache.contains("key1", 0));
}

#[test]
fn test_cache_ttl_expiration() {
    let mut cache = InferenceCache::new(CacheConfig { enabled: true, max_entries: 10, ttl_seconds: 0 });
    cache.set("key1".to_string(), "value1".to_string(), 1_000);
    assert!(cache.get("key1", 1_010).is_none());
    assert_eq!(cache.entry_count(), 0);
}

#[test]
fn entry_lives_exactly_its_ttl() {
    let mut cache = InferenceCache::new(CacheConfig { enabled: true, max_entries: 10, ttl_seconds: 2 });
    cache.set("k".to_string(), "v".to_string(), 1_000);
    assert!(cache.contains("k", 3_000));
    assert!(!cache.contains("k", 3_001));
}

#[test]
fn test_generate_key_deterministic() {
    let k1 = InferenceCache::generate_key("llama3", "Hello world");
    let k2 = InferenceCache::generate_key("llama3", "Hello world");
    assert_eq!(k1, k2);
    assert_eq!(k1.len(), 16);
}

#[test]
fn generate_key_matches_std_hashing() {
    let mut h = DefaultHasher::new();
    "llama3".hash(&mut h);
    "Hello".hash(&mut h);
    assert_eq!(InferenceCache::generate_key("llama3", "Hello"), format!("{:016x}", h.finish()));
}

#[test]
fn test_generate_key_different_inputs() {
    let k1 = InferenceCache::generate_key("llama3", "Hello");
    let k2 = InferenceCache::generate_key("llama3", "World");
    assert_ne!(k1, k2);
}

#[test]
fn test_generate_key_different_models() {
    let k1 = InferenceCache::generate_key("llama3", "Hello");
    let k2 = InferenceCache::generate_key("mistral", "Hello");
    assert_ne!(k1, k2);
}

#[test]
fn test_generate_chat_key() {
    let msgs = vec![("user".to_string(), "Hi".to_string()), ("assistant".to_string(), "Hello!".to_string())];
    let k1 = InferenceCache::generate_chat_key("llama3", &msgs);
    let k2 = InferenceCache::generate_chat_key("llama3", &msgs);
    assert_eq!(k1, k2);
}

#[test]
fn test_cache_stats() {
    let mut cache = test_cache();
    cache.set("key1".to_string(), "value1".to_string(), 0);
    cache.get("key1", 0);
    cache.get("key2", 0);
    assert_eq!(cache.hits(), 1);
    assert_eq!(cache.misses(), 1);
    assert_eq!(cache.entry_count(), 1);
}

#[test]
fn test_cleanup_expired() {
    let mut cache = InferenceCache::new(CacheConfig { enabled: true, max_entries: 10, ttl_seconds: 0 });
    cache.set("key1".to_string(), "value1".to_string(), 0);
    cache.set("key2".to_string(), "value2".to_string(), 0);
    cache.cleanup_expired(10);
    assert_eq!(cache.entry_count(), 0);
}

#[test]
fn test_lru_order() {
    let mut cache = test_cache();
    for i in 0..5 {
        cache.set(format!("key{}", i), format!("value{}", i), 0);
    }
    cache.get("key0", 0);
    cache.set("key5".to_string(), "value5".to_string(), 0);
    assert!(cache.contains("key0", 0));
    assert!(!cache.contains("key1", 0));
}

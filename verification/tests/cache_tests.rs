//! In-memory response cache.

use rdapify::cache::{CacheConfig, MemoryCache};
use rdapify::{JsonNumber, JsonValue};
use std::time::Duration;

fn to_json(v: serde_json::Value) -> JsonValue {
    match v {
        serde_json::Value::Null => JsonValue::Null,
        serde_json::Value::Bool(b) => JsonValue::Bool(b),
        serde_json::Value::Number(n) => {
            if let Some(u) = n.as_u64() {
                JsonValue::Number(JsonNumber::PosInt(u))
            } else if let Some(i) = n.as_i64() {
                JsonValue::Number(JsonNumber::NegInt(i))
            } else {
                JsonValue::Number(JsonNumber::Float(n.to_string()))
            }
        }
        serde_json::Value::String(s) => JsonValue::String(s),
        serde_json::Value::Array(a) => JsonValue::Array(a.into_iter().map(to_json).collect()),
        serde_json::Value::Object(m) => {
            JsonValue::Object(m.into_iter().map(|(k, v)| (k, to_json(v))).collect())
        }
    }
}

fn json(text: &str) -> JsonValue {
    to_json(serde_json::from_str(text).unwrap())
}

#[test]
fn basic_get_set() {
    let mut cache = MemoryCache::new();
    assert!(cache.get("https://rdap.example.com/domain/foo").is_none());

    cache.set(
        "https://rdap.example.com/domain/foo".to_string(),
        json(r#"{ "ldhName": "foo.example" }"#),
    );

    assert!(cache.get("https://rdap.example.com/domain/foo").is_some());
}

#[test]
fn expired_entry_is_evicted() {
    let mut cache = MemoryCache::with_config(CacheConfig {
        ttl: Duration::from_millis(1),
        max_entries: 100,
    });
    cache.set_with_ttl_at("key".to_string(), json("{}"), Duration::from_millis(1), 0);
    // 5 ms later the entry has expired.
    assert!(cache.get_at("key", 5_000_000).is_none());
    assert_eq!(cache.len(), 0);
}

#[test]
fn max_entries_evicts_oldest() {
    let mut cache = MemoryCache::with_config(CacheConfig {
        ttl: Duration::from_secs(60),
        max_entries: 2,
    });

    cache.set("a".to_string(), json("1"));
    cache.set("b".to_string(), json("2"));
    // Third insert → "a" (oldest) is evicted
    cache.set("c".to_string(), json("3"));

    assert_eq!(cache.len(), 2);
    assert!(cache.get("a").is_none());
}

#[test]
fn clear_empties_cache() {
    let mut cache = MemoryCache::new();
    cache.set("x".to_string(), json("{}"));
    cache.clear();
    assert!(cache.is_empty());
}

#[test]
fn read_after_write_returns_value_while_fresh() {
    let mut cache = MemoryCache::new();
    let ttl = Duration::from_nanos(100);
    cache.set_with_ttl_at("k".to_string(), json(r#"{"a": [1, -2, 3.5, "x"]}"#), ttl, 1_000);
    match cache.get_at("k", 1_100) {
        Some(JsonValue::Object(fields)) => {
            assert_eq!(fields.len(), 1);
            assert_eq!(fields[0].0, "a");
            match &fields[0].1 {
                JsonValue::Array(a) => {
                    assert_eq!(a.len(), 4);
                    assert!(matches!(a[0], JsonValue::Number(JsonNumber::PosInt(1))));
                    assert!(matches!(a[1], JsonValue::Number(JsonNumber::NegInt(-2))));
                    assert!(matches!(&a[2], JsonValue::Number(JsonNumber::Float(s)) if s == "3.5"));
                    assert!(matches!(&a[3], JsonValue::String(s) if s == "x"));
                }
                other => panic!("unexpected {other:?}"),
            }
        }
        other => panic!("unexpected {other:?}"),
    }
    // One nanosecond past the TTL it is gone, and removed.
    assert!(cache.get_at("k", 1_101).is_none());
    assert!(cache.is_empty());
}

#[test]
fn eviction_removes_earliest_insertion_and_keeps_capacity() {
    let mut cache = MemoryCache::with_config(CacheConfig {
        ttl: Duration::from_secs(60),
        max_entries: 3,
    });
    let ttl = Duration::from_secs(60);
    cache.set_with_ttl_at("b".to_string(), json("2"), ttl, 20);
    cache.set_with_ttl_at("a".to_string(), json("1"), ttl, 10);
    cache.set_with_ttl_at("c".to_string(), json("3"), ttl, 30);
    cache.set_with_ttl_at("d".to_string(), json("4"), ttl, 40);
    assert_eq!(cache.len(), 3);
    assert!(cache.get_at("a", 50).is_none());
    assert!(cache.get_at("b", 50).is_some());
    assert!(cache.get_at("d", 50).is_some());
}

#[test]
fn zero_capacity_still_keeps_the_newest_entry() {
    let mut cache = MemoryCache::with_config(CacheConfig {
        ttl: Duration::from_secs(60),
        max_entries: 0,
    });
    let ttl = Duration::from_secs(60);
    cache.set_with_ttl_at("a".to_string(), json("1"), ttl, 1);
    cache.set_with_ttl_at("b".to_string(), json("2"), ttl, 2);
    assert_eq!(cache.len(), 1);
    assert!(cache.get_at("b", 3).is_some());
}

#[test]
fn evict_expired_keeps_fresh_entries() {
    let mut cache = MemoryCache::new();
    cache.set_with_ttl_at("short".to_string(), json("1"), Duration::from_nanos(10), 0);
    cache.set_with_ttl_at("long".to_string(), json("2"), Duration::from_nanos(1_000), 0);
    cache.evict_expired_at(100);
    assert_eq!(cache.len(), 1);
    assert!(cache.get_at("long", 100).is_some());
}

#[test]
fn default_cache_config() {
    let cfg = CacheConfig::default();
    assert_eq!(cfg.ttl, Duration::from_secs(300));
    assert_eq!(cfg.max_entries, 1000);
}

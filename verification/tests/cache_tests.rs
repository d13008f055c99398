use cherenkov::cache::{Classification, ClassificationCache, IsotopePrediction, ReadingDecision};
use cherenkov::storage::F32Bits;

fn classification(symbol: &str, confidence: f32) -> Classification {
    Classification {
        isotopes: vec![IsotopePrediction { symbol: symbol.to_string(), confidence: F32Bits(confidence.to_bits()) }],
        latency_ms: 7,
    }
}

#[test]
fn cache_put_then_get_hits() {
    let mut c = ClassificationCache::new(4, 300_000);
    c.put("abc".to_string(), classification("Cs-137", 0.9), 1_000);
    let got = c.get("abc", 2_000).unwrap();
    assert_eq!(got.isotopes.len(), 1);
    assert_eq!(got.isotopes[0].symbol, "Cs-137");
    assert_eq!(got.isotopes[0].confidence, F32Bits(0.9f32.to_bits()));
    assert_eq!(got.latency_ms, 7);
    let s = c.get_stats();
    assert_eq!((s.size, s.capacity, s.hit_count, s.miss_count), (1, 4, 1, 0));
}

#[test]
fn cache_miss_and_expiry() {
    let mut c = ClassificationCache::new(4, 1_000);
    assert!(c.get("nothing", 0).is_none());
    c.put("k".to_string(), classification("Co-60", 0.5), 10_000);
    assert!(c.get("k", 11_000).is_some());
    assert!(c.get("k", 11_001).is_none());
    let s = c.get_stats();
    assert_eq!((s.size, s.hit_count, s.miss_count), (1, 1, 2));
}

#[test]
fn cache_evicts_least_recently_used() {
    let mut c = ClassificationCache::new(2, 60_000);
    c.put("a".to_string(), classification("A", 0.1), 0);
    c.put("b".to_string(), classification("B", 0.2), 0);
    assert!(c.get("a", 1).is_some());
    c.put("c".to_string(), classification("C", 0.3), 2);
    assert!(c.get("b", 3).is_none());
    assert_eq!(c.get("a", 3).unwrap().isotopes[0].symbol, "A");
    assert_eq!(c.get("c", 3).unwrap().isotopes[0].symbol, "C");
    assert_eq!(c.get_stats().size, 2);
}

#[test]
fn cache_put_replaces_value_under_same_key() {
    let mut c = ClassificationCache::new(2, 60_000);
    c.put("a".to_string(), classification("A", 0.1), 0);
    c.put("a".to_string(), classification("Z", 0.4), 5);
    assert_eq!(c.get_stats().size, 1);
    assert_eq!(c.get("a", 6).unwrap().isotopes[0].symbol, "Z");
}

#[test]
fn cache_zero_capacity_means_default() {
    let c = ClassificationCache::new(0, 1);
    assert_eq!(c.get_stats().capacity, 1000);
}

#[test]
fn cache_clear_resets() {
    let mut c = ClassificationCache::new(3, 100);
    c.put("a".to_string(), classification("A", 0.1), 0);
    assert!(c.get("a", 0).is_some());
    assert!(c.get("b", 0).is_none());
    c.clear();
    let s = c.get_stats();
    assert_eq!((s.size, s.capacity, s.hit_count, s.miss_count), (0, 3, 0, 0));
    assert!(c.get("a", 0).is_none());
}

#[test]
fn classification_clone_keeps_everything() {
    let a = classification("I-131", 0.75);
    let b = a.clone();
    assert_eq!(b.isotopes[0].symbol, "I-131");
    assert_eq!(b.isotopes[0].confidence, a.isotopes[0].confidence);
    assert_eq!(b.latency_ms, a.latency_ms);
}

#[test]
fn test_classification_creation() {
    let prediction = IsotopePrediction { symbol: "Cs-137".to_string(), confidence: F32Bits(0.95f32.to_bits()) };

    let classification = Classification { isotopes: vec![prediction], latency_ms: 10 };

    assert_eq!(classification.isotopes.len(), 1);
    assert_eq!(classification.isotopes[0].symbol, "Cs-137");
    assert_eq!(classification.latency_ms, 10);
}

#[test]
fn reading_decisions_follow_detector_and_cache() {
    let mut c = ClassificationCache::new(4, 60_000);
    assert!(matches!(c.decide_reading(false, "k", 0), ReadingDecision::NotAnomalous));
    assert_eq!(c.get_stats().miss_count, 0);
    assert!(matches!(c.decide_reading(true, "k", 0), ReadingDecision::Classify));
    c.put("k".to_string(), classification("I-131", 0.8), 1);
    match c.decide_reading(true, "k", 2) {
        ReadingDecision::Cached(got) => assert_eq!(got.isotopes[0].symbol, "I-131"),
        _ => panic!("expected a cached classification"),
    }
    let s = c.get_stats();
    assert_eq!((s.hit_count, s.miss_count), (1, 1));
}

#[test]
fn batch_partition_and_store_keep_order() {
    let mut c = ClassificationCache::new(4, 60_000);
    c.put("k2".to_string(), classification("Co-60", 0.7), 0);
    let readings = vec![(1u32, "k1".to_string()), (2u32, "k2".to_string()), (3u32, "k3".to_string())];
    let (cached, uncached) = c.partition_batch(readings, 10);
    let cached_ids: Vec<u32> = cached.iter().map(|x| x.0).collect();
    assert_eq!(cached_ids, vec![2]);
    assert_eq!(cached[0].1.isotopes[0].symbol, "Co-60");
    let uncached_view: Vec<(u32, &str)> = uncached.iter().map(|x| (x.0, x.1.as_str())).collect();
    assert_eq!(uncached_view, vec![(1, "k1"), (3, "k3")]);
    let s = c.get_stats();
    assert_eq!((s.hit_count, s.miss_count), (1, 2));
    let all = c.store_batch(cached, uncached, vec![classification("Cs-137", 0.9), classification("I-131", 0.8)], 20);
    let order: Vec<(u32, String)> = all.iter().map(|x| (x.0, x.1.isotopes[0].symbol.clone())).collect();
    assert_eq!(order, vec![(2, "Co-60".to_string()), (1, "Cs-137".to_string()), (3, "I-131".to_string())]);
    assert_eq!(c.get("k3", 30).unwrap().isotopes[0].symbol, "I-131");
    assert_eq!(c.get_stats().size, 3);
}

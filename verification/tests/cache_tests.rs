use llm_policy_engine::cache::DecisionCache;
use llm_policy_engine::context::EvaluationContext;
use llm_policy_engine::decision::{DecisionType, PolicyDecision};

#[test]
fn test_cache_put_get() {
    let mut cache = DecisionCache::new(100, 60_000_000);

    let context = EvaluationContext::builder()
        .with_user_id("user-123")
        .with_model("gpt-4")
        .build();

    let decision = PolicyDecision::allow();
    cache.put(&context, &decision);

    let cached = cache.get(&context);
    assert!(cached.is_some());
    assert_eq!(cached.unwrap().decision, DecisionType::Allow);
}

#[test]
fn test_cache_miss() {
    let mut cache = DecisionCache::new(100, 60_000_000);

    let context = EvaluationContext::builder().with_user_id("user-123").build();

    let cached = cache.get(&context);
    assert!(cached.is_none());

    let stats = cache.stats();
    assert_eq!(stats.misses, 1);
    assert_eq!(stats.hits, 0);
}

#[test]
fn test_cache_entry_expiry() {
    let mut cache = DecisionCache::new(100, 50_000);

    let context = EvaluationContext::builder().with_user_id("user-123").build();
    let decision = PolicyDecision::allow();

    cache.put_at(&context, &decision, 1_000_000);
    assert!(cache.get_at(&context, 1_000_001).is_some());
    assert!(cache.get_at(&context, 1_100_000).is_none());
    assert!(cache.get_at(&context, 1_100_000).is_none());
}

#[test]
fn test_cache_clear() {
    let mut cache = DecisionCache::new(100, 60_000_000);

    let context = EvaluationContext::builder().with_user_id("user-123").build();

    let decision = PolicyDecision::allow();
    cache.put(&context, &decision);

    cache.clear();

    assert!(cache.get(&context).is_none());
}

#[test]
fn test_cache_stats() {
    let mut cache = DecisionCache::new(100, 60_000_000);

    let context1 = EvaluationContext::builder().with_user_id("user-1").build();
    let context2 = EvaluationContext::builder().with_user_id("user-2").build();

    let decision = PolicyDecision::allow();
    cache.put(&context1, &decision);

    assert!(cache.get(&context1).is_some());
    assert!(cache.get(&context2).is_none());

    let stats = cache.stats();
    assert_eq!(stats.hits, 1);
    assert_eq!(stats.misses, 1);
    assert_eq!(stats.size, 1);
    assert_eq!(stats.hit_rate, 50);
}

#[test]
fn test_cache_lru_eviction() {
    let mut cache = DecisionCache::new(2, 60_000_000);
    let c1 = EvaluationContext::builder().with_user_id("u1").build();
    let c2 = EvaluationContext::builder().with_user_id("u2").build();
    let c3 = EvaluationContext::builder().with_user_id("u3").build();
    let decision = PolicyDecision::allow();

    cache.put_at(&c1, &decision, 0);
    cache.put_at(&c2, &decision, 0);
    assert!(cache.get_at(&c1, 1).is_some());
    cache.put_at(&c3, &decision, 1);

    assert!(cache.get_at(&c2, 2).is_none());
    assert!(cache.get_at(&c1, 2).is_some());
    assert!(cache.get_at(&c3, 2).is_some());
    assert_eq!(cache.stats().size, 2);
}

#[test]
fn test_fingerprint_matches_for_equal_serializations() {
    let c1 = EvaluationContext::builder().with_model("gpt-4").with_user_id("u").build();
    let c2 = EvaluationContext::builder().with_user_id("u").with_model("gpt-4").build();
    assert_eq!(c1.to_json(), c2.to_json());
    assert_eq!(DecisionCache::compute_key(&c1), DecisionCache::compute_key(&c2));
    let c3 = EvaluationContext::builder().with_model("gpt-3.5").with_user_id("u").build();
    assert_ne!(DecisionCache::compute_key(&c1), DecisionCache::compute_key(&c3));
}

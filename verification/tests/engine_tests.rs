use llm_policy_engine::action::Action;
use llm_policy_engine::condition::Condition;
use llm_policy_engine::context::EvaluationContext;
use llm_policy_engine::decision::DecisionType;
use llm_policy_engine::engine::PolicyEngine;
use llm_policy_engine::policy::Policy;
use llm_policy_engine::rule::PolicyRule;
use llm_policy_engine::value::ConditionValue;

fn sample_policy() -> Policy {
    Policy::builder("test-policy")
        .name("Test Policy")
        .rule(PolicyRule::new(
            "rule-1",
            "Deny unauthorized",
            Condition::equals(
                "metadata.role",
                ConditionValue::String("guest".to_string()),
            ),
            Action::deny("Guests are not allowed"),
        ))
        .build()
}

#[test]
fn test_engine_creation() {
    let engine = PolicyEngine::builder()
        .with_cache_enabled(true)
        .build()
        .unwrap();

    assert_eq!(engine.policy_count(), 0);
    assert!(engine.cache.is_some());
}

#[test]
fn test_load_policy() {
    let mut engine = PolicyEngine::builder().build().unwrap();

    let policy = sample_policy();
    let id = engine.load_policy(policy).unwrap();

    assert_eq!(id, "test-policy");
    assert_eq!(engine.policy_count(), 1);
    assert!(engine.get_policy("test-policy").is_some());
}

#[test]
fn test_unload_policy() {
    let mut engine = PolicyEngine::builder()
        .with_policy(sample_policy())
        .build()
        .unwrap();

    assert_eq!(engine.policy_count(), 1);

    engine.unload_policy("test-policy").unwrap();

    assert_eq!(engine.policy_count(), 0);
    assert!(engine.unload_policy("test-policy").is_err());
}

#[test]
fn test_basic_evaluation() {
    let mut engine = PolicyEngine::builder()
        .with_policy(sample_policy())
        .build()
        .unwrap();

    let context = EvaluationContext::builder()
        .with_user("user-123", None, vec!["admin".to_string()])
        .build();

    let decision = engine.evaluate(&context).unwrap();

    assert!(decision.allowed);
}

#[test]
fn test_cache_hit_on_identical_context() {
    let mut engine = PolicyEngine::builder()
        .with_policy(sample_policy())
        .with_cache_enabled(true)
        .build()
        .unwrap();

    let context = EvaluationContext::builder().with_model("gpt-4").build();

    let first = engine.evaluate(&context).unwrap();
    let second = engine.evaluate(&context).unwrap();

    let stats = engine.cache_stats().unwrap();
    assert_eq!(stats.hits, 1);
    assert_eq!(stats.misses, 1);
    assert_eq!(first.decision, second.decision);
    assert_eq!(first.allowed, second.allowed);
    assert_eq!(first.matched_policies, second.matched_policies);
    assert_eq!(first.matched_rules, second.matched_rules);
}

#[test]
fn test_cache_invalidation_on_load() {
    let mut engine = PolicyEngine::builder()
        .with_cache_enabled(true)
        .build()
        .unwrap();

    let context = EvaluationContext::builder().with_model("gpt-4").build();
    let first = engine.evaluate(&context).unwrap();
    assert_eq!(first.decision, DecisionType::Allow);

    let deny_all = Policy::builder("deny-all")
        .name("deny everything")
        .rule(PolicyRule::new(
            "deny-any-model",
            "deny any model",
            Condition::field_exists("llm.model"),
            Action::deny("blocked"),
        ))
        .build();
    engine.load_policy(deny_all).unwrap();

    assert_eq!(engine.cache_stats().unwrap().size, 0);

    let second = engine.evaluate(&context).unwrap();
    assert_eq!(second.decision, DecisionType::Deny);
    assert!(!second.allowed);
}

#[test]
fn test_cache_cleared_on_unload() {
    let mut engine = PolicyEngine::builder()
        .with_policy(sample_policy())
        .with_cache_enabled(true)
        .build()
        .unwrap();

    let context = EvaluationContext::builder().with_model("gpt-4").build();
    engine.evaluate(&context).unwrap();
    assert_eq!(engine.cache_stats().unwrap().size, 1);

    engine.unload_policy("test-policy").unwrap();
    assert_eq!(engine.cache_stats().unwrap().size, 0);
}

#[test]
fn test_list_policies_and_metrics() {
    let mut engine = PolicyEngine::builder().with_cache_enabled(false).build().unwrap();
    engine.load_policy(sample_policy()).unwrap();
    let ids = engine.list_policies();
    assert_eq!(ids, vec!["test-policy"]);
    let metrics = engine.metrics();
    assert_eq!(metrics.policy_count, 1);
    assert!(!metrics.cache_enabled);
    assert!(metrics.cache_stats.is_none());
}

#[test]
fn test_load_rejects_invalid_policy() {
    let mut engine = PolicyEngine::builder().build().unwrap();
    let invalid = Policy::new("", "unnamed");
    assert!(engine.load_policy(invalid).is_err());
    assert_eq!(engine.policy_count(), 0);
}

#[test]
fn test_load_policy_yaml_and_json() {
    let mut engine = PolicyEngine::builder().with_cache_enabled(false).build().unwrap();
    let yaml = "
policies:
  - id: y1
    metadata:
      name: From YAML
    rules:
      - id: r
        name: deny all models
        condition:
          operator: exists
          field: llm.model
        action:
          type: deny
          decision: deny
          reason: blocked
";
    let ids = engine.load_policy_yaml(yaml).unwrap();
    assert_eq!(ids, vec!["y1"]);

    let json = "{\"policies\":[{\"id\":\"j1\",\"metadata\":{\"name\":\"From JSON\"},\"rules\":[]}]}";
    let ids2 = engine.load_policy_json(json).unwrap();
    assert_eq!(ids2, vec!["j1"]);
    assert_eq!(engine.policy_count(), 2);

    let context = EvaluationContext::builder().with_model("gpt-4").build();
    let decision = engine.evaluate(&context).unwrap();
    assert_eq!(decision.decision, DecisionType::Deny);
    assert_eq!(decision.reason, Some("blocked".to_string()));
}

use llm_policy_engine::action::{Action, ActionType, Modification};
use llm_policy_engine::decision::DecisionType;
use llm_policy_engine::condition::Condition;
use llm_policy_engine::policy::{Policy, PolicyMetadata};
use llm_policy_engine::rule::PolicyRule;
use llm_policy_engine::value::ConditionValue;

fn admin_condition() -> Condition {
    Condition::equals("user.role", ConditionValue::String("admin".to_string()))
}

#[test]
fn test_policy_creation() {
    let policy = Policy::new("test-policy", "Test Policy");
    assert_eq!(policy.id, "test-policy");
    assert_eq!(policy.metadata.name, "Test Policy");
    assert!(policy.enabled);
}

#[test]
fn test_policy_builder() {
    let policy = Policy::builder("test-policy")
        .name("Test Policy")
        .description("A test policy")
        .namespace("test")
        .version("1.0.0")
        .tag("test")
        .tag("example")
        .priority(10)
        .build();

    assert_eq!(policy.id, "test-policy");
    assert_eq!(policy.metadata.name, "Test Policy");
    assert_eq!(policy.metadata.description, Some("A test policy".to_string()));
    assert_eq!(policy.metadata.namespace, Some("test".to_string()));
    assert_eq!(policy.metadata.version, "1.0.0");
    assert_eq!(policy.metadata.tags, vec!["test", "example"]);
    assert_eq!(policy.priority, 10);
}

#[test]
fn test_policy_validation() {
    let policy = Policy::new("test", "Test");
    assert!(policy.validate().is_ok());

    let invalid_policy = Policy {
        id: "".to_string(),
        metadata: PolicyMetadata::new("test"),
        rules: vec![],
        enabled: true,
        priority: 0,
    };
    assert!(invalid_policy.validate().is_err());
}

#[test]
fn test_rule_creation() {
    let rule = PolicyRule::new("rule-1", "Test Rule", admin_condition(), Action::allow());
    assert_eq!(rule.id, "rule-1");
    assert_eq!(rule.name, "Test Rule");
    assert!(rule.enabled);
}

#[test]
fn test_rule_builder() {
    let rule = PolicyRule::builder("rule-1")
        .name("Test Rule")
        .description("A test rule")
        .condition(admin_condition())
        .action(Action::allow())
        .priority(10)
        .build()
        .unwrap();

    assert_eq!(rule.id, "rule-1");
    assert_eq!(rule.name, "Test Rule");
    assert_eq!(rule.description, Some("A test rule".to_string()));
    assert_eq!(rule.priority, 10);
}

#[test]
fn test_rule_validation() {
    let valid_rule = PolicyRule::new(
        "rule-1",
        "Test Rule",
        Condition::equals("field", ConditionValue::String("value".to_string())),
        Action::allow(),
    );
    assert!(valid_rule.validate().is_ok());

    let invalid_rule = PolicyRule {
        id: "".to_string(),
        name: "Test".to_string(),
        description: None,
        condition: Condition::equals("field", ConditionValue::String("value".to_string())),
        action: Action::allow(),
        enabled: true,
        priority: 0,
    };
    assert!(invalid_rule.validate().is_err());
}

#[test]
fn test_metadata_creation() {
    let metadata = PolicyMetadata::new("Test Policy");
    assert_eq!(metadata.name, "Test Policy");
    assert_eq!(metadata.version, "1.0.0");
    assert!(metadata.tags.is_empty());
}

#[test]
fn test_metadata_builder_pattern() {
    let metadata = PolicyMetadata::new("Test Policy")
        .with_description("A test policy")
        .with_namespace("testing")
        .with_version("2.0.0")
        .with_tag("test")
        .with_label("env", "development");

    assert_eq!(metadata.description, Some("A test policy".to_string()));
    assert_eq!(metadata.namespace, Some("testing".to_string()));
    assert_eq!(metadata.version, "2.0.0");
    assert_eq!(metadata.tags, vec!["test"]);
    assert_eq!(metadata.labels, vec![("env".to_string(), "development".to_string())]);
}

#[test]
fn test_allow_action() {
    let action = Action::allow();
    assert_eq!(action.action_type, ActionType::Allow);
    assert_eq!(action.decision, DecisionType::Allow);
}

#[test]
fn test_deny_action() {
    let action = Action::deny("Not authorized");
    assert_eq!(action.action_type, ActionType::Deny);
    assert_eq!(action.reason, Some("Not authorized".to_string()));
}

#[test]
fn test_modify_action() {
    let action = Action::modify(vec![
        Modification::set("llm.maxTokens", ConditionValue::Integer(1000)),
        Modification::mask("llm.prompt"),
    ]);
    assert_eq!(action.action_type, ActionType::Modify);
    assert_eq!(action.modifications.len(), 2);
}

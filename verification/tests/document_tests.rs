use llm_policy_engine::action::Action;
use llm_policy_engine::condition::Condition;
use llm_policy_engine::document::PolicyDocument;
use llm_policy_engine::policy::Policy;
use llm_policy_engine::rule::PolicyRule;
use llm_policy_engine::value::ConditionValue;

fn sample_policy() -> Policy {
    Policy::builder("test-policy")
        .name("Test Policy")
        .description("A test policy")
        .rule(PolicyRule::new(
            "rule-1",
            "Test Rule",
            Condition::equals("user.role", ConditionValue::String("admin".to_string())),
            Action::allow(),
        ))
        .build()
}

#[test]
fn test_document_creation() {
    let doc = PolicyDocument::new();
    assert_eq!(doc.api_version, "policy.llm-dev-ops.io/v1");
    assert_eq!(doc.kind, "PolicyDocument");
    assert!(doc.policies.is_empty());
}

#[test]
fn test_document_with_policies() {
    let doc = PolicyDocument::with_policies(vec![sample_policy()]);
    assert_eq!(doc.policies.len(), 1);
}

#[test]
fn test_get_policy() {
    let doc = PolicyDocument::with_policies(vec![sample_policy()]);
    assert!(doc.get_policy("test-policy").is_some());
    assert!(doc.get_policy("nonexistent").is_none());
}

#[test]
fn test_enabled_policies_sorted() {
    let mut policy1 = sample_policy();
    policy1.id = "policy-1".to_string();
    policy1.priority = 10;

    let mut policy2 = sample_policy();
    policy2.id = "policy-2".to_string();
    policy2.priority = 20;

    let mut policy3 = sample_policy();
    policy3.id = "policy-3".to_string();
    policy3.priority = 5;
    policy3.enabled = false;

    let doc = PolicyDocument::with_policies(vec![policy1, policy2, policy3]);
    let enabled = doc.enabled_policies();

    assert_eq!(enabled.len(), 2);
    assert_eq!(enabled[0].id, "policy-2");
    assert_eq!(enabled[1].id, "policy-1");
}

#[test]
fn test_document_validation() {
    let doc = PolicyDocument::with_policies(vec![sample_policy()]);
    assert!(doc.validate().is_ok());
    let bad = PolicyDocument::with_policies(vec![Policy::new("", "x")]);
    assert!(bad.validate().is_err());
}

#[test]
fn test_yaml_serialization() {
    let doc = PolicyDocument::with_policies(vec![sample_policy()]);
    let yaml = doc.to_yaml().unwrap();
    let parsed = PolicyDocument::from_yaml(&yaml).unwrap();
    assert_eq!(parsed.policies.len(), 1);
    assert_eq!(parsed.policies[0].id, "test-policy");
    assert_eq!(parsed.policies[0].metadata.name, "Test Policy");
    assert_eq!(parsed.policies[0].rules.len(), 1);
    assert_eq!(parsed.policies[0].rules[0].id, "rule-1");
}

#[test]
fn test_json_serialization() {
    let doc = PolicyDocument::with_policies(vec![sample_policy()]);
    let json = doc.to_json();
    let parsed = PolicyDocument::from_json(&json).unwrap();
    assert_eq!(parsed.policies.len(), 1);
    assert_eq!(parsed.api_version, doc.api_version);
    assert_eq!(parsed.kind, doc.kind);
    assert_eq!(parsed.policies[0].id, doc.policies[0].id);
    assert_eq!(parsed.policies[0].priority, doc.policies[0].priority);
    assert_eq!(parsed.policies[0].enabled, doc.policies[0].enabled);
    assert_eq!(
        parsed.policies[0].rules[0].name,
        doc.policies[0].rules[0].name
    );
    assert_eq!(
        parsed.policies[0].rules[0].condition.field,
        doc.policies[0].rules[0].condition.field
    );
}

#[test]
fn test_from_json_wire_format() {
    let text = r#"{
        "policies": [
            {
                "id": "p1",
                "metadata": { "name": "First" },
                "priority": 7,
                "rules": [
                    {
                        "id": "r1",
                        "name": "cap tokens",
                        "condition": {
                            "operator": "GREATER_THAN",
                            "field": "llm.maxTokens",
                            "value": 100.5
                        },
                        "action": { "type": "deny", "decision": "deny", "reason": "too big" }
                    }
                ]
            }
        ]
    }"#;
    let doc = PolicyDocument::from_json(text).unwrap();
    assert_eq!(doc.api_version, "policy.llm-dev-ops.io/v1");
    assert_eq!(doc.kind, "PolicyDocument");
    assert_eq!(doc.policies.len(), 1);
    let p = &doc.policies[0];
    assert_eq!(p.id, "p1");
    assert_eq!(p.metadata.name, "First");
    assert_eq!(p.metadata.version, "1.0.0");
    assert_eq!(p.priority, 7);
    assert!(p.enabled);
    let r = &p.rules[0];
    assert_eq!(
        r.condition.operator,
        llm_policy_engine::condition::ConditionOperator::GreaterThan
    );
    match &r.condition.value {
        Some(ConditionValue::Float(m)) => assert_eq!(*m, 100_500_000),
        other => panic!("unexpected value: {:?}", other),
    }
    assert_eq!(r.action.reason, Some("too big".to_string()));
}

#[test]
fn test_from_yaml_wire_format() {
    let text = "
apiVersion: policy.llm-dev-ops.io/v1
kind: PolicyDocument
policies:
  - id: gate
    metadata:
      name: Model gate
    rules:
      - id: block
        name: block model
        condition:
          operator: equals
          field: llm.model
          value: gpt-3.5
        action:
          type: deny
          decision: deny
          reason: unapproved
";
    let doc = PolicyDocument::from_yaml(text).unwrap();
    assert_eq!(doc.policies.len(), 1);
    assert_eq!(doc.policies[0].id, "gate");
    assert_eq!(doc.policies[0].rules[0].name, "block model");
    assert!(doc.validate().is_ok());
}

#[test]
fn test_from_json_rejects_bad_text() {
    assert!(PolicyDocument::from_json("{ not json").is_err());
    assert!(PolicyDocument::from_json("[1, 2]").is_err());
    assert!(PolicyDocument::from_json("{\"policies\": [{}]}").is_err());
}

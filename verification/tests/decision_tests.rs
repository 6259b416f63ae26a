use llm_policy_engine::decision::{DecisionType, PolicyDecision, parse_decision};
use llm_policy_engine::value::ConditionValue;

#[test]
fn test_decision_is_allowed() {
    assert!(DecisionType::Allow.is_allowed());
    assert!(DecisionType::Warn.is_allowed());
    assert!(DecisionType::Modify.is_allowed());
    assert!(!DecisionType::Deny.is_allowed());
}

#[test]
fn test_decision_is_denied() {
    assert!(DecisionType::Deny.is_denied());
    assert!(!DecisionType::Allow.is_denied());
}

#[test]
fn test_decision_from_str() {
    assert_eq!("allow".parse::<DecisionType>().unwrap(), DecisionType::Allow);
    assert_eq!("DENY".parse::<DecisionType>().unwrap(), DecisionType::Deny);
    assert!("invalid".parse::<DecisionType>().is_err());
    assert_eq!(parse_decision("Warn").unwrap(), DecisionType::Warn);
    assert_eq!(parse_decision("modify").unwrap(), DecisionType::Modify);
}

#[test]
fn test_allow_decision() {
    let decision = PolicyDecision::allow();
    assert!(decision.allowed);
    assert_eq!(decision.decision, DecisionType::Allow);
}

#[test]
fn test_deny_decision() {
    let decision = PolicyDecision::deny("Access denied");
    assert!(!decision.allowed);
    assert_eq!(decision.decision, DecisionType::Deny);
    assert_eq!(decision.reason, Some("Access denied".to_string()));
}

#[test]
fn test_decision_builder_pattern() {
    let decision = PolicyDecision::deny("Policy violation")
        .with_matched_policy("policy-1")
        .with_matched_rule("rule-1")
        .with_evaluation_time_us(5500)
        .with_metadata("source", ConditionValue::String("admin-policy".to_string()));

    assert_eq!(decision.matched_policies, vec!["policy-1"]);
    assert_eq!(decision.matched_rules, vec!["rule-1"]);
    assert_eq!(decision.evaluation_time_us, 5500);
    assert!(decision.get_metadata(&"source".to_string()).is_some());
}

#[test]
fn test_modify_decision() {
    let modifications = vec![("llm.maxTokens".to_string(), ConditionValue::Integer(1000))];

    let decision = PolicyDecision::modify(modifications);
    assert!(decision.allowed);
    assert_eq!(decision.decision, DecisionType::Modify);
    assert!(decision.get_modification(&"llm.maxTokens".to_string()).is_some());
}

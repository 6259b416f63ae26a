use llm_policy_engine::condition::{Condition, ConditionOperator};
use llm_policy_engine::value::ConditionValue;

#[test]
fn test_simple_condition() {
    let cond = Condition::equals("user.role", ConditionValue::String("admin".to_string()));
    assert_eq!(cond.field, Some("user.role".to_string()));
    assert!(cond.validate().is_ok());
}

#[test]
fn test_logical_conditions() {
    let cond = Condition::and(vec![
        Condition::equals("user.role", ConditionValue::String("admin".to_string())),
        Condition::greater_than("user.level", ConditionValue::Integer(5)),
    ]);
    assert!(cond.validate().is_ok());
}

#[test]
fn test_condition_validation() {
    let invalid = Condition {
        operator: ConditionOperator::Equals,
        field: None,
        value: None,
        conditions: Vec::new(),
    };
    assert!(invalid.validate().is_err());
}

#[test]
fn test_empty_and_invalid() {
    let invalid = Condition::and(Vec::new());
    assert!(invalid.validate().is_err());
    let invalid_or = Condition::or(Vec::new());
    assert!(invalid_or.validate().is_err());
}

#[test]
fn test_not_arity_validation() {
    let two_children = Condition {
        operator: ConditionOperator::Not,
        field: None,
        value: None,
        conditions: vec![
            Condition::field_exists("user.id"),
            Condition::field_exists("llm.model"),
        ],
    };
    assert!(two_children.validate().is_err());
    let one_child = Condition::not(Condition::field_exists("user.id"));
    assert!(one_child.validate().is_ok());
}

#[test]
fn test_leaf_missing_value_invalid() {
    let missing_value = Condition {
        operator: ConditionOperator::GreaterThan,
        field: Some("llm.maxTokens".to_string()),
        value: None,
        conditions: Vec::new(),
    };
    assert!(missing_value.validate().is_err());
    let presence_without_value = Condition::field_exists("llm.maxTokens");
    assert!(presence_without_value.validate().is_ok());
}

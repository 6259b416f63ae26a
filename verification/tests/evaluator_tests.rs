use llm_policy_engine::action::{Action, Modification};
use llm_policy_engine::condition::{Condition, ConditionOperator};
use llm_policy_engine::context::EvaluationContext;
use llm_policy_engine::decision::DecisionType;
use llm_policy_engine::evaluator::Evaluator;
use llm_policy_engine::policy::Policy;
use llm_policy_engine::rule::PolicyRule;
use llm_policy_engine::value::ConditionValue;

fn s(v: &str) -> ConditionValue {
    ConditionValue::String(v.to_string())
}

fn sample_policy() -> Policy {
    Policy::builder("test-policy")
        .name("Test Policy")
        .rule(PolicyRule::new(
            "deny-guests",
            "Deny guest users",
            Condition::equals("user.roles", ConditionValue::Array(vec![s("guest")])),
            Action::deny("Guests are not allowed"),
        ))
        .rule(PolicyRule::new(
            "allow-admins",
            "Allow admin users",
            Condition::is_in("user.roles", vec![s("admin"), s("superadmin")]),
            Action::allow(),
        ))
        .build()
}

#[test]
fn test_evaluator_allow() {
    let evaluator = Evaluator::new();
    let policies = vec![sample_policy()];

    let context = EvaluationContext::builder()
        .with_user("user-123", None, vec!["admin".to_string()])
        .build();

    let result = evaluator.evaluate(&policies, &context).unwrap();
    assert!(result.allowed);
    assert_eq!(result.decision, DecisionType::Allow);
}

#[test]
fn test_condition_equals() {
    let evaluator = Evaluator::new();
    let context = EvaluationContext::builder().with_model("gpt-4").build();

    let condition = Condition::equals("llm.model", s("gpt-4"));
    assert!(evaluator.evaluate_condition(&condition, &context).unwrap());

    let condition = Condition::equals("llm.model", s("gpt-3.5-turbo"));
    assert!(!evaluator.evaluate_condition(&condition, &context).unwrap());
}

#[test]
fn test_condition_greater_than() {
    let evaluator = Evaluator::new();
    let context = EvaluationContext::builder().with_max_tokens(2000).build();

    let condition = Condition::greater_than("llm.maxTokens", ConditionValue::Integer(1000));
    assert!(evaluator.evaluate_condition(&condition, &context).unwrap());

    let condition = Condition::greater_than("llm.maxTokens", ConditionValue::Integer(3000));
    assert!(!evaluator.evaluate_condition(&condition, &context).unwrap());
}

#[test]
fn test_condition_and() {
    let evaluator = Evaluator::new();
    let context = EvaluationContext::builder()
        .with_model("gpt-4")
        .with_provider("openai")
        .build();

    let condition = Condition::and(vec![
        Condition::equals("llm.model", s("gpt-4")),
        Condition::equals("llm.provider", s("openai")),
    ]);
    assert!(evaluator.evaluate_condition(&condition, &context).unwrap());

    let condition = Condition::and(vec![
        Condition::equals("llm.model", s("gpt-4")),
        Condition::equals("llm.provider", s("anthropic")),
    ]);
    assert!(!evaluator.evaluate_condition(&condition, &context).unwrap());
}

#[test]
fn test_condition_or() {
    let evaluator = Evaluator::new();
    let context = EvaluationContext::builder().with_model("gpt-4").build();

    let condition = Condition::or(vec![
        Condition::equals("llm.model", s("gpt-4")),
        Condition::equals("llm.model", s("other-model")),
    ]);
    assert!(evaluator.evaluate_condition(&condition, &context).unwrap());
}

#[test]
fn test_condition_exists() {
    let evaluator = Evaluator::new();
    let context = EvaluationContext::builder().with_model("gpt-4").build();

    let condition = Condition::field_exists("llm.model");
    assert!(evaluator.evaluate_condition(&condition, &context).unwrap());

    let condition = Condition::field_exists("user.id");
    assert!(!evaluator.evaluate_condition(&condition, &context).unwrap());
}

#[test]
fn test_absent_field_comparisons() {
    let evaluator = Evaluator::new();
    let context = EvaluationContext::builder().with_model("gpt-4").build();

    let equals_absent = Condition::equals("user.id", s("u"));
    assert!(!evaluator.evaluate_condition(&equals_absent, &context).unwrap());

    let not_exists = Condition {
        operator: ConditionOperator::NotExists,
        field: Some("user.id".to_string()),
        value: None,
        conditions: Vec::new(),
    };
    assert!(evaluator.evaluate_condition(&not_exists, &context).unwrap());
}

#[test]
fn test_string_operators() {
    let evaluator = Evaluator::new();
    let context = EvaluationContext::builder().with_model("gpt-4-turbo").build();

    let starts = Condition {
        operator: ConditionOperator::StartsWith,
        field: Some("llm.model".to_string()),
        value: Some(s("gpt-")),
        conditions: Vec::new(),
    };
    assert!(evaluator.evaluate_condition(&starts, &context).unwrap());

    let ends = Condition {
        operator: ConditionOperator::EndsWith,
        field: Some("llm.model".to_string()),
        value: Some(s("turbo")),
        conditions: Vec::new(),
    };
    assert!(evaluator.evaluate_condition(&ends, &context).unwrap());

    let contains = Condition::contains("llm.model", s("-4-"));
    assert!(evaluator.evaluate_condition(&contains, &context).unwrap());
    let not_contained = Condition::contains("llm.model", s("gpt5"));
    assert!(!evaluator.evaluate_condition(&not_contained, &context).unwrap());
}

#[test]
fn test_regex_matches() {
    let evaluator = Evaluator::new();
    let context = EvaluationContext::builder()
        .with_user("user-1", Some("dev@example.com".to_string()), vec![])
        .build();

    let matches_cond = Condition::matches("user.email", "^[a-z]+@example\\.com$");
    assert!(evaluator.evaluate_condition(&matches_cond, &context).unwrap());

    let no_match = Condition::matches("user.email", "^[0-9]+$");
    assert!(!evaluator.evaluate_condition(&no_match, &context).unwrap());

    let bad_pattern = Condition::matches("user.email", "([");
    assert!(evaluator.evaluate_condition(&bad_pattern, &context).is_err());
}

#[test]
fn test_numeric_type_mismatch_is_error() {
    let evaluator = Evaluator::new();
    let context = EvaluationContext::builder().with_model("gpt-4").build();
    let condition = Condition::greater_than("llm.model", ConditionValue::Integer(10));
    assert!(evaluator.evaluate_condition(&condition, &context).is_err());
}

#[test]
fn test_fixed_point_comparison() {
    let evaluator = Evaluator::new();
    let context = EvaluationContext::builder().with_temperature(700_000).build();

    let below_one = Condition::less_than("llm.temperature", ConditionValue::Float(1_000_000));
    assert!(evaluator.evaluate_condition(&below_one, &context).unwrap());

    let above_half = Condition::greater_than("llm.temperature", ConditionValue::Float(500_000));
    assert!(evaluator.evaluate_condition(&above_half, &context).unwrap());

    let equals_int_scale = Condition::equals("llm.maxTokens", ConditionValue::Float(2_000_000));
    let ctx2 = EvaluationContext::builder().with_max_tokens(2).build();
    assert!(evaluator.evaluate_condition(&equals_int_scale, &ctx2).unwrap());
}

#[test]
fn test_priority_short_circuit_on_deny() {
    let policy_a = Policy::builder("A")
        .name("warn guests")
        .priority(50)
        .rule(PolicyRule::new(
            "warn-guest",
            "warn guest",
            Condition::equals("metadata.role", s("guest")),
            Action::warn("guests should verify"),
        ))
        .build();
    let policy_b = Policy::builder("B")
        .name("forbid guests")
        .priority(100)
        .rule(PolicyRule::new(
            "deny-guest",
            "deny guest",
            Condition::equals("metadata.role", s("guest")),
            Action::deny("guests forbidden"),
        ))
        .build();

    let context = EvaluationContext::builder()
        .with_user("u", None, vec![])
        .with_metadata("role", s("guest"))
        .build();

    let evaluator = Evaluator::new();
    let policies = vec![policy_b, policy_a];
    let result = evaluator.evaluate(&policies, &context).unwrap();
    assert_eq!(result.decision, DecisionType::Deny);
    assert_eq!(result.reason, Some("guests forbidden".to_string()));
    assert_eq!(result.matched_policies, vec!["B"]);
    assert!(!result.allowed);
}

#[test]
fn test_allow_when_no_rule_matches() {
    let policy = Policy::builder("X")
        .name("model gate")
        .rule(PolicyRule::new(
            "deny-gpt35",
            "deny gpt-3.5",
            Condition::equals("llm.model", s("gpt-3.5")),
            Action::deny("unapproved"),
        ))
        .build();
    let context = EvaluationContext::builder().with_model("gpt-4").build();

    let evaluator = Evaluator::new();
    let result = evaluator.evaluate(&vec![policy], &context).unwrap();
    assert_eq!(result.decision, DecisionType::Allow);
    assert!(result.allowed);
    assert!(result.matched_policies.is_empty());
    assert!(result.matched_rules.is_empty());
}

#[test]
fn test_modify_merge_across_policies() {
    let policy_c = Policy::builder("C")
        .name("cap tokens")
        .priority(100)
        .rule(PolicyRule::new(
            "cap",
            "cap tokens",
            Condition::field_exists("llm.model"),
            Action::modify(vec![Modification::set(
                "llm.maxTokens",
                ConditionValue::Integer(500),
            )]),
        ))
        .build();
    let policy_d = Policy::builder("D")
        .name("tune request")
        .priority(50)
        .rule(PolicyRule::new(
            "tune",
            "tune request",
            Condition::field_exists("llm.model"),
            Action::modify(vec![
                Modification::set("llm.temperature", ConditionValue::Float(200_000)),
                Modification::set("llm.maxTokens", ConditionValue::Integer(200)),
            ]),
        ))
        .build();

    let context = EvaluationContext::builder().with_model("gpt-4").build();
    let evaluator = Evaluator::new();
    let policies = vec![policy_c, policy_d];
    let result = evaluator.evaluate(&policies, &context).unwrap();

    assert_eq!(result.decision, DecisionType::Modify);
    match result.get_modification(&"llm.maxTokens".to_string()) {
        Some(ConditionValue::Integer(n)) => assert_eq!(*n, 200),
        other => panic!("unexpected maxTokens modification: {:?}", other),
    }
    match result.get_modification(&"llm.temperature".to_string()) {
        Some(ConditionValue::Float(m)) => assert_eq!(*m, 200_000),
        other => panic!("unexpected temperature modification: {:?}", other),
    }
    assert_eq!(result.matched_policies, vec!["C", "D"]);
}

#[test]
fn test_recursive_condition() {
    let evaluator = Evaluator::new();
    let condition = Condition::and(vec![
        Condition::or(vec![
            Condition::equals("metadata.role", s("admin")),
            Condition::equals("metadata.role", s("superuser")),
        ]),
        Condition::not(Condition::equals(
            "metadata.containsPII",
            ConditionValue::Boolean(true),
        )),
    ]);

    let ctx_a = EvaluationContext::builder()
        .with_metadata("role", s("admin"))
        .with_metadata("containsPII", ConditionValue::Boolean(false))
        .build();
    assert!(evaluator.evaluate_condition(&condition, &ctx_a).unwrap());

    let ctx_b = EvaluationContext::builder()
        .with_metadata("role", s("admin"))
        .with_metadata("containsPII", ConditionValue::Boolean(true))
        .build();
    assert!(!evaluator.evaluate_condition(&condition, &ctx_b).unwrap());

    let ctx_c = EvaluationContext::builder()
        .with_metadata("role", s("user"))
        .with_metadata("containsPII", ConditionValue::Boolean(false))
        .build();
    assert!(!evaluator.evaluate_condition(&condition, &ctx_c).unwrap());
}

#[test]
fn test_modify_idempotent_reapplication() {
    let mk_policy = |id: &str, priority: i32| {
        Policy::builder(id)
            .name(id)
            .priority(priority)
            .rule(PolicyRule::new(
                "cap",
                "cap tokens",
                Condition::field_exists("llm.model"),
                Action::modify(vec![Modification::set(
                    "llm.maxTokens",
                    ConditionValue::Integer(500),
                )]),
            ))
            .build()
    };
    let context = EvaluationContext::builder().with_model("gpt-4").build();
    let evaluator = Evaluator::new();
    let policies = vec![mk_policy("P-high", 100), mk_policy("P-low", 50)];
    let result = evaluator.evaluate(&policies, &context).unwrap();

    assert_eq!(result.decision, DecisionType::Modify);
    assert_eq!(result.modifications.len(), 1);
    match result.get_modification(&"llm.maxTokens".to_string()) {
        Some(ConditionValue::Integer(n)) => assert_eq!(*n, 500),
        other => panic!("unexpected modification: {:?}", other),
    }
}

#[test]
fn test_deterministic_evaluation() {
    let policies = vec![sample_policy()];
    let context = EvaluationContext::builder()
        .with_user("user-123", None, vec!["admin".to_string()])
        .build();
    let evaluator = Evaluator::new();
    let first = evaluator.evaluate(&policies, &context).unwrap();
    let second = evaluator.evaluate(&policies, &context).unwrap();
    assert_eq!(first.decision, second.decision);
    assert_eq!(first.allowed, second.allowed);
    assert_eq!(first.matched_policies, second.matched_policies);
    assert_eq!(first.matched_rules, second.matched_rules);
}

#[test]
fn test_rule_priority_order_within_policy() {
    let policy = Policy::builder("P")
        .name("ordered")
        .rule(
            PolicyRule::new(
                "low",
                "low priority warn",
                Condition::field_exists("llm.model"),
                Action::warn("low"),
            )
            .with_priority(1),
        )
        .rule(
            PolicyRule::new(
                "high",
                "high priority deny",
                Condition::field_exists("llm.model"),
                Action::deny("high wins"),
            )
            .with_priority(10),
        )
        .build();
    let context = EvaluationContext::builder().with_model("gpt-4").build();
    let evaluator = Evaluator::new();
    let result = evaluator.evaluate(&vec![policy], &context).unwrap();
    assert_eq!(result.decision, DecisionType::Deny);
    assert_eq!(result.reason, Some("high wins".to_string()));
    assert_eq!(result.matched_rules, vec!["high"]);
}

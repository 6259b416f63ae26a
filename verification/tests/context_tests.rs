use llm_policy_engine::context::EvaluationContext;
use llm_policy_engine::value::ConditionValue;

#[test]
fn test_context_builder() {
    let ctx = EvaluationContext::builder()
        .with_provider("openai")
        .with_model("gpt-4")
        .with_user_id("user-123")
        .build();

    assert_eq!(ctx.llm.as_ref().unwrap().provider, Some("openai".to_string()));
    assert_eq!(ctx.llm.as_ref().unwrap().model, Some("gpt-4".to_string()));
    assert_eq!(ctx.user.as_ref().unwrap().id, "user-123");
}

#[test]
fn test_context_get() {
    let ctx = EvaluationContext::builder()
        .with_provider("openai")
        .with_model("gpt-4")
        .with_user("user-123", Some("test@example.com".to_string()), vec!["admin".to_string()])
        .build();

    match ctx.get("llm.provider") {
        Some(ConditionValue::String(s)) => assert_eq!(s, "openai"),
        other => panic!("unexpected provider value: {:?}", other),
    }
    match ctx.get("llm.model") {
        Some(ConditionValue::String(s)) => assert_eq!(s, "gpt-4"),
        other => panic!("unexpected model value: {:?}", other),
    }
    match ctx.get("user.id") {
        Some(ConditionValue::String(s)) => assert_eq!(s, "user-123"),
        other => panic!("unexpected user id value: {:?}", other),
    }
    match ctx.get("user.roles") {
        Some(ConditionValue::Array(items)) => {
            assert_eq!(items.len(), 1);
            match &items[0] {
                ConditionValue::String(s) => assert_eq!(s, "admin"),
                other => panic!("unexpected role value: {:?}", other),
            }
        },
        other => panic!("unexpected roles value: {:?}", other),
    }
}

#[test]
fn test_context_get_absent() {
    let ctx = EvaluationContext::builder().with_model("gpt-4").build();
    assert!(ctx.get("user.id").is_none());
    assert!(ctx.get("llm.prompt").is_none());
    assert!(ctx.get("").is_none());
    assert!(ctx.get("llm").is_none());
}

#[test]
fn test_context_metadata_lookup() {
    let ctx = EvaluationContext::builder()
        .with_metadata("requestClass", ConditionValue::String("batch".to_string()))
        .build();
    match ctx.get("metadata.requestClass") {
        Some(ConditionValue::String(s)) => assert_eq!(s, "batch"),
        other => panic!("unexpected metadata value: {:?}", other),
    }
    assert!(ctx.get("metadata.missing").is_none());
}

#[test]
fn test_context_snake_case_aliases() {
    let ctx = EvaluationContext::builder().with_max_tokens(2000).build();
    match ctx.get("llm.maxTokens") {
        Some(ConditionValue::Integer(n)) => assert_eq!(n, 2000),
        other => panic!("unexpected maxTokens value: {:?}", other),
    }
    match ctx.get("llm.max_tokens") {
        Some(ConditionValue::Integer(n)) => assert_eq!(n, 2000),
        other => panic!("unexpected max_tokens value: {:?}", other),
    }
}

#[test]
fn test_context_stable_serialization() {
    let ctx1 = EvaluationContext::builder()
        .with_provider("openai")
        .with_model("gpt-4")
        .with_user_id("user-1")
        .build();
    let ctx2 = EvaluationContext::builder()
        .with_model("gpt-4")
        .with_provider("openai")
        .with_user_id("user-1")
        .build();
    assert_eq!(ctx1.to_json(), ctx2.to_json());
    assert_eq!(
        ctx1.to_json(),
        "{\"llm\":{\"provider\":\"openai\",\"model\":\"gpt-4\"},\"user\":{\"id\":\"user-1\",\"roles\":[],\"permissions\":[]}}"
    );
}

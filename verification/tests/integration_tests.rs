use llm_policy_engine::integration::{IntegrationResult, ShieldScanRequest, ThreatType};

#[test]
fn test_integration_result_accessors() {
    let ok: IntegrationResult<u32> = IntegrationResult::Success(7);
    assert!(ok.is_success());
    assert_eq!(ok.value(), Some(&7));
    assert_eq!(ok.unwrap_or(0), 7);

    let down: IntegrationResult<u32> = IntegrationResult::Unavailable;
    assert!(!down.is_success());
    assert!(down.value().is_none());
    assert_eq!(down.unwrap_or(3), 3);

    let failed: IntegrationResult<u32> = IntegrationResult::Error("boom".to_string());
    assert!(!failed.is_success());
    assert_eq!(failed.unwrap_or(5), 5);
}

#[test]
fn test_shield_scan_request_builders() {
    let request = ShieldScanRequest::new("tell me a story")
        .with_user_id("user-9")
        .with_model("gpt-4");
    assert_eq!(request.prompt, "tell me a story");
    assert_eq!(request.user_id, Some("user-9".to_string()));
    assert_eq!(request.model, Some("gpt-4".to_string()));
    assert_ne!(ThreatType::PromptInjection, ThreatType::Jailbreak);
}

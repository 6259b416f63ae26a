use llm_policy_engine::config::TelemetryConfig;
use llm_policy_engine::decision::DecisionType;
use llm_policy_engine::telemetry::{Telemetry, Span};

#[test]
fn test_telemetry_creation() {
    let config = TelemetryConfig::default();
    let telemetry = Telemetry::new(&config).unwrap();
    assert!(telemetry.is_enabled());
}

#[test]
fn test_record_evaluation() {
    let config = TelemetryConfig::default();
    let mut telemetry = Telemetry::new(&config).unwrap();

    telemetry.record_evaluation(&DecisionType::Allow, 5000, false);
    telemetry.record_evaluation(&DecisionType::Deny, 3000, true);
    telemetry.record_evaluation(&DecisionType::Allow, 2000, false);

    let metrics = telemetry.metrics();
    assert_eq!(metrics.total_evaluations, 3);
    assert_eq!(metrics.evaluations_allow, 2);
    assert_eq!(metrics.evaluations_deny, 1);
    assert_eq!(metrics.cache_hits, 1);
    assert_eq!(metrics.cache_misses, 2);
}

#[test]
fn test_span_attributes() {
    let mut span = Span::new("test_operation");
    span.set_attribute("key", "value");
    assert_eq!(span.name(), "test_operation");
    assert_eq!(span.attributes.len(), 1);
}

use llm_policy_engine::error::Error;

#[test]
fn test_error_creation() {
    let err = Error::validation("test error");
    assert!(matches!(err, Error::Validation { .. }));
    assert_eq!(err.category(), "validation");
}

#[test]
fn test_error_is_recoverable() {
    assert!(Error::cache("test").is_recoverable());
    assert!(Error::integration("shield", "unavailable").is_recoverable());
    assert!(Error::timeout("test", 5000).is_recoverable());
    assert!(!Error::validation("test").is_recoverable());
}

#[test]
fn test_error_display() {
    let err = Error::validation_field("invalid value", "policy.name");
    assert!(err.message().contains("invalid value"));
}

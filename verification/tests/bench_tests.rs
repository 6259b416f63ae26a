use llm_policy_engine::bench::{
    BridgeConfig, TypeScriptBridge, ConditionParsingAdapter, DecisionTreeAdapter,
    PolicyBundleAdapter, PolicyEvaluationAdapter, sanitize_filename,
};

#[test]
fn test_default_config() {
    let config = BridgeConfig::default();
    assert_eq!(config.node_path, "node");
    assert_eq!(config.timeout_secs, 30);
}

#[test]
fn test_bridge_creation() {
    let bridge = TypeScriptBridge::new();
    assert_eq!(bridge.config.node_path, "node");
}

#[test]
fn condition_parsing_test_adapter_id() {
    let adapter = ConditionParsingAdapter::new();
    assert_eq!(adapter.id(), "condition_parsing");
}

#[test]
fn decision_tree_test_adapter_id() {
    let adapter = DecisionTreeAdapter::new();
    assert_eq!(adapter.id(), "decision_tree");
}

#[test]
fn policy_bundle_test_adapter_id() {
    let adapter = PolicyBundleAdapter::new();
    assert_eq!(adapter.id(), "policy_bundle");
}

#[test]
fn policy_evaluation_test_adapter_id() {
    let adapter = PolicyEvaluationAdapter::new();
    assert_eq!(adapter.id(), "policy_evaluation");
}

#[test]
fn test_sanitize_filename() {
    assert_eq!(sanitize_filename("simple"), "simple");
    assert_eq!(sanitize_filename("with spaces"), "with_spaces");
    assert_eq!(sanitize_filename("with/slashes"), "with_slashes");
    assert_eq!(sanitize_filename("kebab-case"), "kebab-case");
    assert_eq!(sanitize_filename("under_score"), "under_score");
}

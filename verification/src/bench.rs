//! Benchmark support: the adapters' identities and configuration, and the
//! result-file name sanitizer. The harness that spawns processes and measures
//! wall time lives outside this library.

use vstd::prelude::*;
use crate::outside::{chars_of, string_from_chars, is_alphanumeric_char};

verus! {

/// Bridge configuration for invoking the TypeScript engine.
#[derive(Debug, Clone)]
pub struct BridgeConfig {
    /// Path to the Node.js executable
    pub node_path: String,
    /// Path to the TypeScript project root
    pub project_root: String,
    /// Timeout in seconds
    pub timeout_secs: u64,
}

impl Default for BridgeConfig {
    fn default() -> (r: Self)
        ensures
            r.node_path@ == "node"@,
            r.project_root@ == "."@,
            r.timeout_secs == 30,
    {
        BridgeConfig { node_path: "node".to_owned(), project_root: ".".to_owned(), timeout_secs: 30 }
    }
}

/// TypeScript-side bridge for benchmarking engine operations; the harness
/// around it performs the actual subprocess calls.
#[derive(Debug, Clone)]
pub struct TypeScriptBridge {
    /// The configuration used for invocations
    pub config: BridgeConfig,
}

impl TypeScriptBridge {
    /// Create a new bridge with default configuration.
    pub fn new() -> (r: Self)
        ensures
            r.config.node_path@ == "node"@,
            r.config.project_root@ == "."@,
            r.config.timeout_secs == 30,
    {
        TypeScriptBridge { config: BridgeConfig::default() }
    }

    /// Create a new bridge with custom configuration.
    pub fn with_config(config: BridgeConfig) -> (r: Self)
        ensures
            r.config == config,
    {
        TypeScriptBridge { config }
    }
}

impl Default for TypeScriptBridge {
    fn default() -> (r: Self)
        ensures
            r.config.node_path@ == "node"@,
            r.config.timeout_secs == 30,
    {
        TypeScriptBridge::new()
    }
}

/// Duration category of a benchmark.
#[derive(Debug, Clone, Copy, PartialEq, Eq, Structural)]
pub enum DurationCategory {
    /// Fast benchmarks (under a second)
    Fast,
    /// Medium benchmarks (seconds)
    Medium,
    /// Slow benchmarks (tens of seconds)
    Slow,
}

/// Adapter measuring end-to-end policy evaluation.
#[derive(Debug, Clone, Copy)]
pub struct PolicyEvaluationAdapter;

impl PolicyEvaluationAdapter {
    /// Create a new policy evaluation adapter.
    pub fn new() -> Self {
        PolicyEvaluationAdapter
    }

    /// The unique identifier of this benchmark target.
    pub fn id(&self) -> (r: &'static str)
        ensures
            r@ == "policy_evaluation"@,
    {
        "policy_evaluation"
    }

    /// A human-readable description of this benchmark.
    pub fn description(&self) -> (r: &'static str)
        ensures
            r@ == "Benchmarks end-to-end policy evaluation"@,
    {
        "Benchmarks end-to-end policy evaluation"
    }
}

/// Adapter measuring condition parsing and evaluation.
#[derive(Debug, Clone, Copy)]
pub struct ConditionParsingAdapter;

impl ConditionParsingAdapter {
    /// Create a new condition parsing adapter.
    pub fn new() -> Self {
        ConditionParsingAdapter
    }

    /// The unique identifier of this benchmark target.
    pub fn id(&self) -> (r: &'static str)
        ensures
            r@ == "condition_parsing"@,
    {
        "condition_parsing"
    }

    /// A human-readable description of this benchmark.
    pub fn description(&self) -> (r: &'static str)
        ensures
            r@ == "Benchmarks parsing and evaluation of policy conditions"@,
    {
        "Benchmarks parsing and evaluation of policy conditions"
    }
}

/// Adapter measuring decision tree resolution.
#[derive(Debug, Clone, Copy)]
pub struct DecisionTreeAdapter;

impl DecisionTreeAdapter {
    /// Create a new decision tree adapter.
    pub fn new() -> Self {
        DecisionTreeAdapter
    }

    /// The unique identifier of this benchmark target.
    pub fn id(&self) -> (r: &'static str)
        ensures
            r@ == "decision_tree"@,
    {
        "decision_tree"
    }

    /// A human-readable description of this benchmark.
    pub fn description(&self) -> (r: &'static str)
        ensures
            r@ == "Benchmarks rule traversal and decision resolution"@,
    {
        "Benchmarks rule traversal and decision resolution"
    }
}

/// Adapter measuring policy bundle loading.
#[derive(Debug, Clone, Copy)]
pub struct PolicyBundleAdapter;

impl PolicyBundleAdapter {
    /// Create a new policy bundle adapter.
    pub fn new() -> Self {
        PolicyBundleAdapter
    }

    /// The unique identifier of this benchmark target.
    pub fn id(&self) -> (r: &'static str)
        ensures
            r@ == "policy_bundle"@,
    {
        "policy_bundle"
    }

    /// A human-readable description of this benchmark.
    pub fn description(&self) -> (r: &'static str)
        ensures
            r@ == "Benchmarks loading and parsing of policy bundles"@,
    {
        "Benchmarks loading and parsing of policy bundles"
    }
}

/// The sanitized form of one file-name character: alphanumerics, hyphens and
/// underscores stay, everything else becomes an underscore.
pub open spec fn spec_sanitize_char(c: char) -> char {
    if crate::outside::spec_is_alphanumeric(c) || c == '-' || c == '_' {
        c
    } else {
        '_'
    }
}

/// The sanitized form of a whole name, character by character.
pub open spec fn spec_sanitize(s: Seq<char>) -> Seq<char> {
    Seq::new(s.len(), |i: int| spec_sanitize_char(s[i]))
}

/// Sanitize a string for use as a file name.
pub fn sanitize_filename(name: &str) -> (r: String)
    ensures
        r@ == spec_sanitize(name@),
{
    let cs = chars_of(name);
    let mut out: Vec<char> = Vec::new();
    let mut i: usize = 0;
    while i < cs.len()
        invariant
            i <= cs@.len(),
            cs@ == name@,
            out@.len() == i as int,
            forall|j: int| 0 <= j < i as int ==> out@[j] == spec_sanitize_char(#[trigger] name@[j]),
        decreases cs@.len() - i,
    {
        let c = cs[i];
        let keep = is_alphanumeric_char(c) || c == '-' || c == '_';
        if keep {
            out.push(c);
        } else {
            out.push('_');
        }
        i = i + 1;
    }
    proof {
        assert(out@ =~= spec_sanitize(name@));
    }
    string_from_chars(&out)
}

} // verus!

//! Decisions returned by policy evaluation.

use vstd::prelude::*;
use crate::error::Error;
use crate::outside::chars_of;
use crate::strutil::{chars_ci_eq, spec_ci_eq};
use crate::value::{ConditionValue, ValueView};
use crate::alist::{alist_set, alist_upsert, alist_lookup, alist_get};

verus! {

/// The kind of decision returned by policy evaluation.
#[derive(Debug, Clone, Copy, PartialEq, Eq, Hash, Structural)]
pub enum DecisionType {
    /// Allow the request to proceed
    Allow,
    /// Deny the request
    Deny,
    /// Allow with a warning
    Warn,
    /// Allow with modifications
    Modify,
}

/// Whether a decision kind lets the request proceed: every kind but `Deny`.
pub open spec fn spec_is_allowed(d: DecisionType) -> bool {
    !(d is Deny)
}

impl DecisionType {
    /// Check if this decision allows the request.
    pub fn is_allowed(&self) -> (r: bool)
        ensures
            r == spec_is_allowed(*self),
    {
        match self {
            DecisionType::Allow | DecisionType::Warn | DecisionType::Modify => true,
            DecisionType::Deny => false,
        }
    }

    /// Check if this decision denies the request.
    pub fn is_denied(&self) -> (r: bool)
        ensures
            r == (*self is Deny),
    {
        match self {
            DecisionType::Deny => true,
            _ => false,
        }
    }

    /// Get the string representation.
    pub fn as_str(&self) -> (r: &'static str)
        ensures
            r@ == spec_decision_str(*self),
    {
        match self {
            DecisionType::Allow => "allow",
            DecisionType::Deny => "deny",
            DecisionType::Warn => "warn",
            DecisionType::Modify => "modify",
        }
    }
}

/// The wire name of each decision kind.
pub open spec fn spec_decision_str(d: DecisionType) -> Seq<char> {
    match d {
        DecisionType::Allow => "allow"@,
        DecisionType::Deny => "deny"@,
        DecisionType::Warn => "warn"@,
        DecisionType::Modify => "modify"@,
    }
}

impl Default for DecisionType {
    fn default() -> (r: Self)
        ensures
            r is Allow,
    {
        DecisionType::Allow
    }
}

/// Parse a decision kind from its wire name, ignoring ASCII case.
///
/// Returns the kind whose name matches, and a parse error on any other input.
pub fn parse_decision(s: &str) -> (r: Result<DecisionType, Error>)
    ensures
        r == Ok::<DecisionType, Error>(DecisionType::Allow) <==> spec_ci_eq(s@, "allow"@),
        r == Ok::<DecisionType, Error>(DecisionType::Deny) <==> spec_ci_eq(s@, "deny"@),
        r == Ok::<DecisionType, Error>(DecisionType::Warn) <==> spec_ci_eq(s@, "warn"@),
        r == Ok::<DecisionType, Error>(DecisionType::Modify) <==> spec_ci_eq(s@, "modify"@),
        r matches Err(e) ==> e is Parse,
    {
    let cs = chars_of(s);
    if chars_ci_eq(&cs, &chars_of("allow")) {
        proof {
            lemma_ci_distinct(s@);
        }
        Ok(DecisionType::Allow)
    } else if chars_ci_eq(&cs, &chars_of("deny")) {
        proof {
            lemma_ci_distinct(s@);
        }
        Ok(DecisionType::Deny)
    } else if chars_ci_eq(&cs, &chars_of("warn")) {
        proof {
            lemma_ci_distinct(s@);
        }
        Ok(DecisionType::Warn)
    } else if chars_ci_eq(&cs, &chars_of("modify")) {
        proof {
            lemma_ci_distinct(s@);
        }
        Ok(DecisionType::Modify)
    } else {
        Err(Error::parse("unknown decision type"))
    }
}

/// The four decision names match no string in common.
proof fn lemma_ci_distinct(s: Seq<char>)
    ensures
        spec_ci_eq(s, "allow"@) ==> !spec_ci_eq(s, "deny"@) && !spec_ci_eq(s, "warn"@)
            && !spec_ci_eq(s, "modify"@),
        spec_ci_eq(s, "deny"@) ==> !spec_ci_eq(s, "warn"@) && !spec_ci_eq(s, "modify"@),
        spec_ci_eq(s, "warn"@) ==> !spec_ci_eq(s, "modify"@),
{
    reveal_strlit("allow");
    reveal_strlit("deny");
    reveal_strlit("warn");
    reveal_strlit("modify");
    if spec_ci_eq(s, "warn"@) && spec_ci_eq(s, "deny"@) {
        assert(crate::strutil::spec_lower_u32(s[0]) == crate::strutil::spec_lower_u32('w'));
        assert(crate::strutil::spec_lower_u32(s[0]) == crate::strutil::spec_lower_u32('d'));
    }
}

impl core::str::FromStr for DecisionType {
    type Err = Error;

    fn from_str(s: &str) -> Result<DecisionType, Error> {
        parse_decision(s)
    }
}

/// A decision is well formed when its `allowed` flag agrees with its kind:
/// every kind but `Deny` lets the request proceed.
pub open spec fn spec_decision_wf(d: DecisionView) -> bool {
    d.allowed == !(d.decision is Deny)
}

/// A well-formed decision reports `allowed == false` exactly when its kind is
/// `Deny`.
pub proof fn lemma_allowed_iff_not_denied(d: DecisionView)
    requires
        spec_decision_wf(d),
    ensures
        (d.allowed == false) <==> d.decision is Deny,
{
}

/// Type of trace step.
#[derive(Debug, Clone, Copy, PartialEq, Eq, Structural)]
pub enum TraceStepType {
    /// A policy was evaluated
    PolicyEvaluated,
    /// A rule was evaluated
    RuleEvaluated,
    /// A condition was evaluated
    ConditionEvaluated,
    /// Cache was checked
    CacheCheck,
    /// Integration was called
    IntegrationCall,
}

/// A single step in the evaluation trace.
#[derive(Debug)]
pub struct TraceStep {
    /// Type of step
    pub step_type: TraceStepType,
    /// ID of the policy or rule
    pub id: String,
    /// Result of this step
    pub result: String,
    /// Duration of this step in microseconds
    pub duration_us: u64,
}

/// The mathematical shape of a [`TraceStep`].
#[verifier::ext_equal]
pub struct TraceStepView {
    /// Type of step
    pub step_type: TraceStepType,
    /// ID of the policy or rule
    pub id: Seq<char>,
    /// Result of this step
    pub result: Seq<char>,
    /// Duration of this step in microseconds
    pub duration_us: u64,
}

impl DeepView for TraceStep {
    type V = TraceStepView;

    open spec fn deep_view(&self) -> TraceStepView {
        TraceStepView {
            step_type: self.step_type,
            id: self.id@,
            result: self.result@,
            duration_us: self.duration_us,
        }
    }
}

impl View for TraceStep {
    type V = TraceStepView;

    open spec fn view(&self) -> TraceStepView {
        self.deep_view()
    }
}

impl Clone for TraceStep {
    /// A clone has the same mathematical value.
    fn clone(&self) -> (r: Self)
        ensures
            r@ == self@,
    {
        TraceStep {
            step_type: self.step_type,
            id: self.id.clone(),
            result: self.result.clone(),
            duration_us: self.duration_us,
        }
    }
}

impl TraceStep {
    /// Create a policy evaluation step.
    pub fn policy(id: &str, result: &str, duration_us: u64) -> (r: Self)
        ensures
            r@ == (TraceStepView {
                step_type: TraceStepType::PolicyEvaluated,
                id: id@,
                result: result@,
                duration_us,
            }),
    {
        TraceStep {
            step_type: TraceStepType::PolicyEvaluated,
            id: id.to_owned(),
            result: result.to_owned(),
            duration_us,
        }
    }

    /// Create a rule evaluation step.
    pub fn rule(id: &str, result: &str, duration_us: u64) -> (r: Self)
        ensures
            r@ == (TraceStepView {
                step_type: TraceStepType::RuleEvaluated,
                id: id@,
                result: result@,
                duration_us,
            }),
    {
        TraceStep {
            step_type: TraceStepType::RuleEvaluated,
            id: id.to_owned(),
            result: result.to_owned(),
            duration_us,
        }
    }

    /// Create a condition evaluation step.
    pub fn condition(id: &str, result: &str, duration_us: u64) -> (r: Self)
        ensures
            r@ == (TraceStepView {
                step_type: TraceStepType::ConditionEvaluated,
                id: id@,
                result: result@,
                duration_us,
            }),
    {
        TraceStep {
            step_type: TraceStepType::ConditionEvaluated,
            id: id.to_owned(),
            result: result.to_owned(),
            duration_us,
        }
    }
}

/// Trace information for debugging policy evaluation.
#[derive(Debug)]
pub struct EvaluationTrace {
    /// Steps taken during evaluation
    pub steps: Vec<TraceStep>,
    /// Total number of policies evaluated
    pub policies_evaluated: usize,
    /// Total number of rules evaluated
    pub rules_evaluated: usize,
    /// Whether the result was cached
    pub cached: bool,
}

/// The mathematical shape of an [`EvaluationTrace`].
#[verifier::ext_equal]
pub struct TraceView {
    /// Steps taken during evaluation
    pub steps: Seq<TraceStepView>,
    /// Total number of policies evaluated
    pub policies_evaluated: int,
    /// Total number of rules evaluated
    pub rules_evaluated: int,
    /// Whether the result was cached
    pub cached: bool,
}

impl DeepView for EvaluationTrace {
    type V = TraceView;

    open spec fn deep_view(&self) -> TraceView {
        TraceView {
            steps: self.steps.deep_view(),
            policies_evaluated: self.policies_evaluated as int,
            rules_evaluated: self.rules_evaluated as int,
            cached: self.cached,
        }
    }
}

impl View for EvaluationTrace {
    type V = TraceView;

    open spec fn view(&self) -> TraceView {
        self.deep_view()
    }
}

impl EvaluationTrace {
    /// Create a new empty trace.
    pub fn new() -> (r: Self)
        ensures
            r@ == (TraceView {
                steps: Seq::empty(),
                policies_evaluated: 0,
                rules_evaluated: 0,
                cached: false,
            }),
    {
        let r = EvaluationTrace { steps: Vec::new(), policies_evaluated: 0, rules_evaluated: 0, cached: false };
        proof {
            assert(r.steps.deep_view() =~= Seq::<TraceStepView>::empty());
        }
        r
    }

    /// Add a trace step.
    pub fn add_step(&mut self, step: TraceStep)
        ensures
            final(self)@ == (TraceView { steps: old(self)@.steps.push(step@), ..old(self)@ }),
    {
        self.steps.push(step);
        proof {
            assert(self.steps.deep_view() =~= old(self).steps.deep_view().push(step.deep_view()));
        }
    }

    /// Mark as cached.
    pub fn mark_cached(&mut self)
        ensures
            final(self)@ == (TraceView { cached: true, ..old(self)@ }),
    {
        self.cached = true;
    }
}

impl Clone for EvaluationTrace {
    /// A clone has the same mathematical value.
    fn clone(&self) -> (r: Self)
        ensures
            r@ == self@,
    {
        let mut steps: Vec<TraceStep> = Vec::new();
        let mut i: usize = 0;
        while i < self.steps.len()
            invariant
                i <= self.steps.len(),
                steps.deep_view() =~= self.steps.deep_view().subrange(0, i as int),
            decreases self.steps@.len() - i,
        {
            steps.push(self.steps[i].clone());
            proof {
                assert(steps.deep_view() =~= self.steps.deep_view().subrange(0, i + 1 as int));
            }
            i = i + 1;
        }
        let r = EvaluationTrace {
            steps,
            policies_evaluated: self.policies_evaluated,
            rules_evaluated: self.rules_evaluated,
            cached: self.cached,
        };
        proof {
            assert(r.steps.deep_view() =~= self.steps.deep_view());
        }
        r
    }
}

impl Default for EvaluationTrace {
    fn default() -> (r: Self)
        ensures
            r@ == (TraceView {
                steps: Seq::empty(),
                policies_evaluated: 0,
                rules_evaluated: 0,
                cached: false,
            }),
    {
        EvaluationTrace::new()
    }
}

/// The result of a policy evaluation.
#[derive(Debug)]
pub struct PolicyDecision {
    /// The type of decision
    pub decision: DecisionType,
    /// Whether the request is allowed
    pub allowed: bool,
    /// Human-readable reason for the decision
    pub reason: Option<String>,
    /// IDs of policies that matched
    pub matched_policies: Vec<String>,
    /// IDs of rules that matched
    pub matched_rules: Vec<String>,
    /// Time taken for evaluation in microseconds
    pub evaluation_time_us: u64,
    /// Modifications to apply (for modify decisions), by field path
    pub modifications: Vec<(String, ConditionValue)>,
    /// Additional metadata
    pub metadata: Vec<(String, ConditionValue)>,
    /// Evaluation trace for debugging
    pub trace: Option<EvaluationTrace>,
}

/// The mathematical shape of a [`PolicyDecision`].
#[verifier::ext_equal]
pub struct DecisionView {
    /// The type of decision
    pub decision: DecisionType,
    /// Whether the request is allowed
    pub allowed: bool,
    /// Reason for the decision
    pub reason: Option<Seq<char>>,
    /// IDs of policies that matched
    pub matched_policies: Seq<Seq<char>>,
    /// IDs of rules that matched
    pub matched_rules: Seq<Seq<char>>,
    /// Time taken for evaluation in microseconds
    pub evaluation_time_us: u64,
    /// Modifications to apply, by field path
    pub modifications: Seq<(Seq<char>, ValueView)>,
    /// Additional metadata
    pub metadata: Seq<(Seq<char>, ValueView)>,
    /// Evaluation trace
    pub trace: Option<TraceView>,
}

impl DecisionView {
    /// This decision with its timing field zeroed, for comparisons that must
    /// ignore wall time.
    pub open spec fn untimed(self) -> DecisionView {
        DecisionView { evaluation_time_us: 0, ..self }
    }
}

impl DeepView for PolicyDecision {
    type V = DecisionView;

    open spec fn deep_view(&self) -> DecisionView {
        DecisionView {
            decision: self.decision,
            allowed: self.allowed,
            reason: match &self.reason {
                Some(s) => Some(s@),
                None => None,
            },
            matched_policies: self.matched_policies.deep_view(),
            matched_rules: self.matched_rules.deep_view(),
            evaluation_time_us: self.evaluation_time_us,
            modifications: self.modifications.deep_view(),
            metadata: self.metadata.deep_view(),
            trace: match &self.trace {
                Some(t) => Some(t.deep_view()),
                None => None,
            },
        }
    }
}

impl View for PolicyDecision {
    type V = DecisionView;

    open spec fn view(&self) -> DecisionView {
        self.deep_view()
    }
}

/// The view of a fresh decision of kind `d` with reason `reason`.
pub open spec fn spec_fresh_decision(d: DecisionType, reason: Option<Seq<char>>) -> DecisionView {
    DecisionView {
        decision: d,
        allowed: !(d is Deny),
        reason,
        matched_policies: Seq::empty(),
        matched_rules: Seq::empty(),
        evaluation_time_us: 0,
        modifications: Seq::empty(),
        metadata: Seq::empty(),
        trace: None,
    }
}

impl PolicyDecision {
    /// Create a new allow decision.
    pub fn allow() -> (r: Self)
        ensures
            r@ == spec_fresh_decision(DecisionType::Allow, None),
    {
        let r = PolicyDecision {
            decision: DecisionType::Allow,
            allowed: true,
            reason: None,
            matched_policies: Vec::new(),
            matched_rules: Vec::new(),
            evaluation_time_us: 0,
            modifications: Vec::new(),
            metadata: Vec::new(),
            trace: None,
        };
        proof {
            lemma_empty_decision_parts(&r);
        }
        r
    }

    /// Create a new deny decision.
    pub fn deny(reason: &str) -> (r: Self)
        ensures
            r@ == spec_fresh_decision(DecisionType::Deny, Some(reason@)),
    {
        let r = PolicyDecision {
            decision: DecisionType::Deny,
            allowed: false,
            reason: Some(reason.to_owned()),
            matched_policies: Vec::new(),
            matched_rules: Vec::new(),
            evaluation_time_us: 0,
            modifications: Vec::new(),
            metadata: Vec::new(),
            trace: None,
        };
        proof {
            lemma_empty_decision_parts(&r);
        }
        r
    }

    /// Create a new warn decision.
    pub fn warn(reason: &str) -> (r: Self)
        ensures
            r@ == spec_fresh_decision(DecisionType::Warn, Some(reason@)),
    {
        let r = PolicyDecision {
            decision: DecisionType::Warn,
            allowed: true,
            reason: Some(reason.to_owned()),
            matched_policies: Vec::new(),
            matched_rules: Vec::new(),
            evaluation_time_us: 0,
            modifications: Vec::new(),
            metadata: Vec::new(),
            trace: None,
        };
        proof {
            lemma_empty_decision_parts(&r);
        }
        r
    }

    /// Create a new modify decision.
    pub fn modify(modifications: Vec<(String, ConditionValue)>) -> (r: Self)
        ensures
            r@ == (DecisionView {
                modifications: modifications.deep_view(),
                ..spec_fresh_decision(DecisionType::Modify, None)
            }),
    {
        let r = PolicyDecision {
            decision: DecisionType::Modify,
            allowed: true,
            reason: None,
            matched_policies: Vec::new(),
            matched_rules: Vec::new(),
            evaluation_time_us: 0,
            modifications,
            metadata: Vec::new(),
            trace: None,
        };
        proof {
            assert(r.matched_policies.deep_view() =~= Seq::<Seq<char>>::empty());
            assert(r.matched_rules.deep_view() =~= Seq::<Seq<char>>::empty());
            assert(r.metadata.deep_view() =~= Seq::<(Seq<char>, ValueView)>::empty());
        }
        r
    }

    /// Set the reason.
    pub fn with_reason(self, reason: &str) -> (r: Self)
        ensures
            r@ == (DecisionView { reason: Some(reason@), ..self@ }),
    {
        PolicyDecision { reason: Some(reason.to_owned()), ..self }
    }

    /// Add a matched policy.
    pub fn with_matched_policy(self, policy_id: &str) -> (r: Self)
        ensures
            r@ == (DecisionView {
                matched_policies: self@.matched_policies.push(policy_id@),
                ..self@
            }),
    {
        let mut this = self;
        this.matched_policies.push(policy_id.to_owned());
        proof {
            assert(this.matched_policies.deep_view() =~= self.matched_policies.deep_view().push(
                policy_id@,
            ));
        }
        this
    }

    /// Add a matched rule.
    pub fn with_matched_rule(self, rule_id: &str) -> (r: Self)
        ensures
            r@ == (DecisionView { matched_rules: self@.matched_rules.push(rule_id@), ..self@ }),
    {
        let mut this = self;
        this.matched_rules.push(rule_id.to_owned());
        proof {
            assert(this.matched_rules.deep_view() =~= self.matched_rules.deep_view().push(
                rule_id@,
            ));
        }
        this
    }

    /// Set the evaluation time in microseconds.
    pub fn with_evaluation_time_us(self, us: u64) -> (r: Self)
        ensures
            r@ == (DecisionView { evaluation_time_us: us, ..self@ }),
    {
        PolicyDecision { evaluation_time_us: us, ..self }
    }

    /// Add metadata.
    pub fn with_metadata(self, key: &str, value: ConditionValue) -> (r: Self)
        ensures
            r@ == (DecisionView {
                metadata: alist_upsert(self@.metadata, key@, value@),
                ..self@
            }),
    {
        let mut this = self;
        alist_set(&mut this.metadata, key.to_owned(), value);
        this
    }

    /// Add a modification.
    pub fn with_modification(self, field: &str, value: ConditionValue) -> (r: Self)
        ensures
            r@ == (DecisionView {
                modifications: alist_upsert(self@.modifications, field@, value@),
                ..self@
            }),
    {
        let mut this = self;
        alist_set(&mut this.modifications, field.to_owned(), value);
        this
    }

    /// Set the evaluation trace.
    pub fn with_trace(self, trace: EvaluationTrace) -> (r: Self)
        ensures
            r@ == (DecisionView { trace: Some(trace@), ..self@ }),
    {
        PolicyDecision { trace: Some(trace), ..self }
    }

    /// Look up the modification recorded for a field path, if any.
    pub fn get_modification(&self, field: &String) -> (r: Option<&ConditionValue>)
        ensures
            match r {
                Some(v) => alist_lookup(self@.modifications, field@) == Some(v.deep_view()),
                None => alist_lookup(self@.modifications, field@) is None,
            },
    {
        alist_get(&self.modifications, field)
    }

    /// Look up a metadata entry by key, if any.
    pub fn get_metadata(&self, key: &String) -> (r: Option<&ConditionValue>)
        ensures
            match r {
                Some(v) => alist_lookup(self@.metadata, key@) == Some(v.deep_view()),
                None => alist_lookup(self@.metadata, key@) is None,
            },
    {
        alist_get(&self.metadata, key)
    }

    /// Check if this decision is a success (not an error): decisions are always
    /// successful, errors travel separately.
    pub fn is_success(&self) -> (r: bool)
        ensures
            r,
    {
        true
    }
}

/// A freshly constructed decision has all of its collection parts empty.
proof fn lemma_empty_decision_parts(d: &PolicyDecision)
    requires
        d.matched_policies@.len() == 0,
        d.matched_rules@.len() == 0,
        d.modifications@.len() == 0,
        d.metadata@.len() == 0,
    ensures
        d.matched_policies.deep_view() =~= Seq::<Seq<char>>::empty(),
        d.matched_rules.deep_view() =~= Seq::<Seq<char>>::empty(),
        d.modifications.deep_view() =~= Seq::<(Seq<char>, ValueView)>::empty(),
        d.metadata.deep_view() =~= Seq::<(Seq<char>, ValueView)>::empty(),
{
}

impl Default for PolicyDecision {
    fn default() -> (r: Self)
        ensures
            r@ == spec_fresh_decision(DecisionType::Allow, None),
    {
        PolicyDecision::allow()
    }
}

impl Clone for PolicyDecision {
    /// A clone has the same mathematical value.
    fn clone(&self) -> (r: Self)
        ensures
            r@ == self@,
    {
        let r = PolicyDecision {
            decision: self.decision,
            allowed: self.allowed,
            reason: match &self.reason {
                Some(s) => Some(s.clone()),
                None => None,
            },
            matched_policies: clone_strings(&self.matched_policies),
            matched_rules: clone_strings(&self.matched_rules),
            evaluation_time_us: self.evaluation_time_us,
            modifications: clone_value_alist(&self.modifications),
            metadata: clone_value_alist(&self.metadata),
            trace: match &self.trace {
                Some(t) => Some(t.clone()),
                None => None,
            },
        };
        r
    }
}

/// Copy a vector of strings; the copy has the same view.
pub fn clone_strings(v: &Vec<String>) -> (r: Vec<String>)
    ensures
        r.deep_view() == v.deep_view(),
{
    let mut out: Vec<String> = Vec::new();
    let mut i: usize = 0;
    while i < v.len()
        invariant
            i <= v.len(),
            out.deep_view() =~= v.deep_view().subrange(0, i as int),
        decreases v@.len() - i,
    {
        out.push(v[i].clone());
        proof {
            assert(out.deep_view() =~= v.deep_view().subrange(0, i + 1 as int));
        }
        i = i + 1;
    }
    proof {
        assert(out.deep_view() =~= v.deep_view());
    }
    out
}

/// Copy a value mapping; the copy has the same view.
pub fn clone_value_alist(v: &Vec<(String, ConditionValue)>) -> (r: Vec<(String, ConditionValue)>)
    ensures
        r.deep_view() == v.deep_view(),
{
    let mut out: Vec<(String, ConditionValue)> = Vec::new();
    let mut i: usize = 0;
    while i < v.len()
        invariant
            i <= v.len(),
            out.deep_view() =~= v.deep_view().subrange(0, i as int),
        decreases v@.len() - i,
    {
        let pair = (v[i].0.clone(), v[i].1.clone());
        out.push(pair);
        proof {
            assert(out.deep_view() =~= v.deep_view().subrange(0, i + 1 as int));
        }
        i = i + 1;
    }
    proof {
        assert(out.deep_view() =~= v.deep_view());
    }
    out
}

} // verus!

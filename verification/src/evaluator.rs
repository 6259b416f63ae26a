//! The policy evaluator: a pure function from an ordered policy list and a
//! context to a decision.

use vstd::prelude::*;
use crate::condition::{Condition, CondView, ConditionOperator};
use crate::context::{EvaluationContext, CtxView, spec_ctx_get};
use crate::error::Error;
use crate::outside::{chars_of, regex_ok, regex_match, regex_is_match};
use crate::strutil::{
    chars_contains, chars_starts_with, chars_ends_with, spec_str_contains, spec_starts_with,
    spec_ends_with,
};
use crate::value::{
    ConditionValue, ValueView, values_equal, spec_values_equal, spec_as_micro, value_views,
    lemma_value_views,
};
use crate::action::ModView;
use crate::alist::{alist_upsert, alist_merge, alist_set, alist_lookup};
use crate::decision::{
    DecisionType, PolicyDecision, DecisionView, spec_fresh_decision, clone_value_alist,
};
use crate::policy::{Policy, PolicyView, spec_enabled_rules};
use crate::rule::{PolicyRule, RuleView};

verus! {

broadcast use
    vstd::seq::axiom_seq_index_decreases,
    vstd::std_specs::vec::axiom_vec_index_decreases,
    vstd::std_specs::vec::axiom_vec_decreases_to_view,
;

/// What can go wrong while evaluating a condition: a structural fault the
/// validator would have caught, a non-numeric operand to a numeric operator, or
/// an uncompilable regular expression (which carries its pattern).
pub enum EvalErr {
    /// A structural invariant was broken (missing child, field or literal)
    Structure,
    /// A numeric operator met a non-numeric operand
    TypeMismatch,
    /// A regular expression failed to compile
    BadRegex(Seq<char>),
}

/// The boolean outcome of one leaf comparison between a context value and a
/// literal.
pub open spec fn spec_compare(op: ConditionOperator, a: ValueView, e: ValueView) -> Result<
    bool,
    EvalErr,
> {
    match op {
        ConditionOperator::Equals => Ok(spec_values_equal(a, e)),
        ConditionOperator::NotEquals => Ok(!spec_values_equal(a, e)),
        ConditionOperator::GreaterThan => spec_compare_numeric_gt(a, e),
        ConditionOperator::GreaterThanOrEquals => spec_compare_numeric_ge(a, e),
        ConditionOperator::LessThan => spec_compare_numeric_lt(a, e),
        ConditionOperator::LessThanOrEquals => spec_compare_numeric_le(a, e),
        ConditionOperator::In => match e {
            ValueView::Arr(items) => Ok(spec_any_equal(a, items)),
            _ => Ok(false),
        },
        ConditionOperator::NotIn => match e {
            ValueView::Arr(items) => Ok(!spec_any_equal(a, items)),
            _ => Ok(true),
        },
        ConditionOperator::Contains => match (a, e) {
            (ValueView::Str(h), ValueView::Str(n)) => Ok(spec_str_contains(h, n)),
            (ValueView::Arr(items), _) => Ok(spec_any_member_equal(items, e)),
            _ => Ok(false),
        },
        ConditionOperator::StartsWith => match (a, e) {
            (ValueView::Str(h), ValueView::Str(n)) => Ok(spec_starts_with(h, n)),
            _ => Ok(false),
        },
        ConditionOperator::EndsWith => match (a, e) {
            (ValueView::Str(h), ValueView::Str(n)) => Ok(spec_ends_with(h, n)),
            _ => Ok(false),
        },
        ConditionOperator::Matches => match (a, e) {
            (ValueView::Str(t), ValueView::Str(p)) => if regex_ok(p) {
                Ok(regex_match(p, t))
            } else {
                Err(EvalErr::BadRegex(p))
            },
            _ => Ok(false),
        },
        _ => Ok(false),
    }
}

/// Whether the context value equals some member of the literal array.
pub open spec fn spec_any_equal(a: ValueView, items: Seq<ValueView>) -> bool {
    exists|i: int| 0 <= i < items.len() && spec_values_equal(a, #[trigger] items[i])
}

/// Whether some member of the context array equals the literal.
pub open spec fn spec_any_member_equal(items: Seq<ValueView>, e: ValueView) -> bool {
    exists|i: int| 0 <= i < items.len() && spec_values_equal(#[trigger] items[i], e)
}

/// Numeric strictly-greater comparison in millionths; either side without a
/// numeric reading is a type error.
pub open spec fn spec_compare_numeric_gt(a: ValueView, e: ValueView) -> Result<bool, EvalErr> {
    match (spec_as_micro(a), spec_as_micro(e)) {
        (Some(x), Some(y)) => Ok(x > y),
        _ => Err(EvalErr::TypeMismatch),
    }
}

/// Numeric greater-or-equal comparison in millionths.
pub open spec fn spec_compare_numeric_ge(a: ValueView, e: ValueView) -> Result<bool, EvalErr> {
    match (spec_as_micro(a), spec_as_micro(e)) {
        (Some(x), Some(y)) => Ok(x >= y),
        _ => Err(EvalErr::TypeMismatch),
    }
}

/// Numeric strictly-less comparison in millionths.
pub open spec fn spec_compare_numeric_lt(a: ValueView, e: ValueView) -> Result<bool, EvalErr> {
    match (spec_as_micro(a), spec_as_micro(e)) {
        (Some(x), Some(y)) => Ok(x < y),
        _ => Err(EvalErr::TypeMismatch),
    }
}

/// Numeric less-or-equal comparison in millionths.
pub open spec fn spec_compare_numeric_le(a: ValueView, e: ValueView) -> Result<bool, EvalErr> {
    match (spec_as_micro(a), spec_as_micro(e)) {
        (Some(x), Some(y)) => Ok(x <= y),
        _ => Err(EvalErr::TypeMismatch),
    }
}

/// The boolean outcome of a condition against a context: `And` and `Or`
/// short-circuit over their children in order, `Not` inverts its first child,
/// presence tests report the field's existence, and every other leaf compares
/// the field's value with the literal (an absent field compares false).
pub open spec fn spec_eval_cond(c: CondView, ctx: CtxView) -> Result<bool, EvalErr>
    decreases c, 1int,
{
    if c.operator is And {
        spec_eval_all(c.conditions, ctx)
    } else if c.operator is Or {
        spec_eval_any(c.conditions, ctx)
    } else if c.operator is Not {
        if c.conditions.len() == 0 {
            Err(EvalErr::Structure)
        } else {
            proof {
                assert(decreases_to!(c => c.conditions[0]));
            }
            match spec_eval_cond(c.conditions[0], ctx) {
                Ok(b) => Ok(!b),
                Err(e) => Err(e),
            }
        }
    } else {
        match c.field {
            None => Err(EvalErr::Structure),
            Some(f) => {
                let cv = spec_ctx_get(ctx, f);
                if c.operator is Exists {
                    Ok(cv is Some)
                } else if c.operator is NotExists {
                    Ok(cv is None)
                } else {
                    match c.value {
                        None => Err(EvalErr::Structure),
                        Some(e) => match cv {
                            None => Ok(false),
                            Some(a) => spec_compare(c.operator, a, e),
                        },
                    }
                }
            },
        }
    }
}

/// Conjunction over children, in order, stopping at the first false or error.
pub open spec fn spec_eval_all(cs: Seq<CondView>, ctx: CtxView) -> Result<bool, EvalErr>
    decreases cs, 0int,
{
    if cs.len() == 0 {
        Ok(true)
    } else {
        proof {
            assert(decreases_to!(cs => cs[0]));
            assert(decreases_to!(cs => cs.subrange(1, cs.len() as int)));
        }
        match spec_eval_cond(cs[0], ctx) {
            Err(e) => Err(e),
            Ok(false) => Ok(false),
            Ok(true) => spec_eval_all(cs.subrange(1, cs.len() as int), ctx),
        }
    }
}

/// Disjunction over children, in order, stopping at the first true or error.
pub open spec fn spec_eval_any(cs: Seq<CondView>, ctx: CtxView) -> Result<bool, EvalErr>
    decreases cs, 0int,
{
    if cs.len() == 0 {
        Ok(false)
    } else {
        proof {
            assert(decreases_to!(cs => cs[0]));
            assert(decreases_to!(cs => cs.subrange(1, cs.len() as int)));
        }
        match spec_eval_cond(cs[0], ctx) {
            Err(e) => Err(e),
            Ok(true) => Ok(true),
            Ok(false) => spec_eval_any(cs.subrange(1, cs.len() as int), ctx),
        }
    }
}

/// Whether an exec evaluation outcome agrees with the specified one, mapping
/// each specification error to its error kind.
pub open spec fn eval_result_matches(r: Result<bool, Error>, s: Result<bool, EvalErr>) -> bool {
    match s {
        Ok(b) => r == Ok::<bool, Error>(b),
        Err(EvalErr::Structure) => r matches Err(e) && e is Evaluation,
        Err(EvalErr::TypeMismatch) => r matches Err(e) && e is Evaluation,
        Err(EvalErr::BadRegex(p)) => r matches Err(e) && (e matches Error::Expression {
            expression,
            ..
        } && expression matches Some(q) && q@ == p),
    }
}

/// The policy evaluator that processes policies against contexts.
#[derive(Debug)]
pub struct Evaluator {
    /// Whether to include trace information in decisions
    pub enable_tracing: bool,
}

impl Evaluator {
    /// Create a new evaluator.
    pub fn new() -> (r: Self)
        ensures
            !r.enable_tracing,
    {
        Evaluator { enable_tracing: false }
    }

    /// Enable or disable tracing.
    pub fn with_tracing(self, enabled: bool) -> (r: Self)
        ensures
            r.enable_tracing == enabled,
    {
        Evaluator { enable_tracing: enabled }
    }

    /// Evaluate a condition against the context.
    pub fn evaluate_condition(&self, condition: &Condition, context: &EvaluationContext) -> (r:
        Result<bool, Error>)
        ensures
            eval_result_matches(r, spec_eval_cond(condition@, context@)),
        decreases condition,
    {
        match condition.operator {
            ConditionOperator::And => {
                proof {
                    crate::condition::lemma_cond_views(condition.conditions@);
                    assert(condition@.conditions.subrange(
                        0,
                        condition@.conditions.len() as int,
                    ) =~= condition@.conditions);
                }
                let mut i: usize = 0;
                loop
                    invariant
                        i <= condition.conditions@.len(),
                        spec_eval_all(condition@.conditions, context@) == spec_eval_all(
                            condition@.conditions.subrange(
                                i as int,
                                condition@.conditions.len() as int,
                            ),
                            context@,
                        ),
                    decreases condition.conditions@.len() - i,
                {
                    proof {
                        crate::condition::lemma_cond_views(condition.conditions@);
                    }
                    if i == condition.conditions.len() {
                        proof {
                            assert(condition@.conditions.subrange(
                                i as int,
                                condition@.conditions.len() as int,
                            ) =~= Seq::<CondView>::empty());
                        }
                        return Ok(true);
                    }
                    proof {
                        assert(decreases_to!(*condition => condition.conditions));
                        assert(decreases_to!(condition.conditions => condition.conditions@));
                        assert(decreases_to!(condition.conditions@ => condition.conditions@[i as int]));
                    }
                    let ghost suffix = condition@.conditions.subrange(
                        i as int,
                        condition@.conditions.len() as int,
                    );
                    proof {
                        assert(suffix[0] == condition@.conditions[i as int]);
                        assert(suffix.subrange(1, suffix.len() as int) =~= condition@.conditions
                            .subrange(i + 1 as int, condition@.conditions.len() as int));
                    }
                    let here = self.evaluate_condition(&condition.conditions[i], context);
                    match here {
                        Err(e) => {
                            return Err(e);
                        },
                        Ok(false) => {
                            return Ok(false);
                        },
                        Ok(true) => {},
                    }
                    i = i + 1;
                }
            },
            ConditionOperator::Or => {
                proof {
                    crate::condition::lemma_cond_views(condition.conditions@);
                    assert(condition@.conditions.subrange(
                        0,
                        condition@.conditions.len() as int,
                    ) =~= condition@.conditions);
                }
                let mut i: usize = 0;
                loop
                    invariant
                        i <= condition.conditions@.len(),
                        spec_eval_any(condition@.conditions, context@) == spec_eval_any(
                            condition@.conditions.subrange(
                                i as int,
                                condition@.conditions.len() as int,
                            ),
                            context@,
                        ),
                    decreases condition.conditions@.len() - i,
                {
                    proof {
                        crate::condition::lemma_cond_views(condition.conditions@);
                    }
                    if i == condition.conditions.len() {
                        proof {
                            assert(condition@.conditions.subrange(
                                i as int,
                                condition@.conditions.len() as int,
                            ) =~= Seq::<CondView>::empty());
                        }
                        return Ok(false);
                    }
                    proof {
                        assert(decreases_to!(*condition => condition.conditions));
                        assert(decreases_to!(condition.conditions => condition.conditions@));
                        assert(decreases_to!(condition.conditions@ => condition.conditions@[i as int]));
                    }
                    let ghost suffix = condition@.conditions.subrange(
                        i as int,
                        condition@.conditions.len() as int,
                    );
                    proof {
                        assert(suffix[0] == condition@.conditions[i as int]);
                        assert(suffix.subrange(1, suffix.len() as int) =~= condition@.conditions
                            .subrange(i + 1 as int, condition@.conditions.len() as int));
                    }
                    let here = self.evaluate_condition(&condition.conditions[i], context);
                    match here {
                        Err(e) => {
                            return Err(e);
                        },
                        Ok(true) => {
                            return Ok(true);
                        },
                        Ok(false) => {},
                    }
                    i = i + 1;
                }
            },
            ConditionOperator::Not => {
                if condition.conditions.len() == 0 {
                    proof {
                        crate::condition::lemma_cond_views(condition.conditions@);
                    }
                    return Err(Error::evaluation("NOT condition requires a nested condition"));
                }
                proof {
                    crate::condition::lemma_cond_views(condition.conditions@);
                    assert(decreases_to!(*condition => condition.conditions));
                    assert(decreases_to!(condition.conditions => condition.conditions@));
                    assert(decreases_to!(condition.conditions@ => condition.conditions@[0]));
                }
                match self.evaluate_condition(&condition.conditions[0], context) {
                    Ok(b) => Ok(!b),
                    Err(e) => Err(e),
                }
            },
            _ => self.evaluate_comparison(condition, context),
        }
    }

    /// Evaluate a leaf comparison condition.
    fn evaluate_comparison(&self, condition: &Condition, context: &EvaluationContext) -> (r: Result<
        bool,
        Error,
    >)
        requires
            !(condition.operator is And),
            !(condition.operator is Or),
            !(condition.operator is Not),
        ensures
            eval_result_matches(r, spec_eval_cond(condition@, context@)),
    {
        let field = match &condition.field {
            Some(f) => f,
            None => {
                return Err(Error::evaluation("Condition requires a field"));
            },
        };
        let context_value = context.get(field.as_str());
        match condition.operator {
            ConditionOperator::Exists => Ok(context_value.is_some()),
            ConditionOperator::NotExists => Ok(context_value.is_none()),
            _ => {
                let expected = match &condition.value {
                    Some(v) => v,
                    None => {
                        return Err(Error::evaluation("Condition requires a value"));
                    },
                };
                match context_value {
                    Some(actual) => compare_values(condition.operator, &actual, expected),
                    None => Ok(false),
                }
            },
        }
    }
}

impl Default for Evaluator {
    fn default() -> (r: Self)
        ensures
            !r.enable_tracing,
    {
        Evaluator::new()
    }
}

/// Compare a context value against a condition literal under an operator;
/// composite operators never reach this and compare false.
pub fn compare_values(op: ConditionOperator, actual: &ConditionValue, expected: &ConditionValue)
    -> (r: Result<bool, Error>)
    ensures
        eval_result_matches(r, spec_compare(op, actual@, expected@)),
{
    match op {
        ConditionOperator::Equals => Ok(values_equal(actual, expected)),
        ConditionOperator::NotEquals => Ok(!values_equal(actual, expected)),
        ConditionOperator::GreaterThan | ConditionOperator::GreaterThanOrEquals
            | ConditionOperator::LessThan | ConditionOperator::LessThanOrEquals => {
            let x = match actual.as_micro() {
                Some(x) => x,
                None => {
                    return Err(Error::evaluation("Expected numeric value for comparison"));
                },
            };
            let y = match expected.as_micro() {
                Some(y) => y,
                None => {
                    return Err(Error::evaluation("Expected numeric value for comparison"));
                },
            };
            match op {
                ConditionOperator::GreaterThan => Ok(x > y),
                ConditionOperator::GreaterThanOrEquals => Ok(x >= y),
                ConditionOperator::LessThan => Ok(x < y),
                _ => Ok(x <= y),
            }
        },
        ConditionOperator::In => {
            match expected {
                ConditionValue::Array(items) => Ok(any_equal(actual, items)),
                _ => Ok(false),
            }
        },
        ConditionOperator::NotIn => {
            match expected {
                ConditionValue::Array(items) => Ok(!any_equal(actual, items)),
                _ => Ok(true),
            }
        },
        ConditionOperator::Contains => {
            match (actual, expected) {
                (ConditionValue::String(h), ConditionValue::String(n)) => {
                    Ok(chars_contains(&chars_of(h.as_str()), &chars_of(n.as_str())))
                },
                (ConditionValue::Array(items), _) => Ok(any_member_equal(items, expected)),
                _ => Ok(false),
            }
        },
        ConditionOperator::StartsWith => {
            match (actual, expected) {
                (ConditionValue::String(h), ConditionValue::String(n)) => {
                    Ok(chars_starts_with(&chars_of(h.as_str()), &chars_of(n.as_str())))
                },
                _ => Ok(false),
            }
        },
        ConditionOperator::EndsWith => {
            match (actual, expected) {
                (ConditionValue::String(h), ConditionValue::String(n)) => {
                    Ok(chars_ends_with(&chars_of(h.as_str()), &chars_of(n.as_str())))
                },
                _ => Ok(false),
            }
        },
        ConditionOperator::Matches => {
            match (actual, expected) {
                (ConditionValue::String(t), ConditionValue::String(p)) => {
                    match regex_is_match(p.as_str(), t.as_str()) {
                        Ok(b) => Ok(b),
                        Err(_) => Err(
                            Error::expression_with_expr("Invalid regex", p.clone()),
                        ),
                    }
                },
                _ => Ok(false),
            }
        },
        _ => Ok(false),
    }
}

/// The reason a deny or warn decision carries: the action's own reason, or a
/// fallback built from the rule name.
pub open spec fn spec_rule_reason(rule: RuleView, prefix: Seq<char>) -> Seq<char> {
    match rule.action.reason {
        Some(r) => r,
        None => prefix + rule.name,
    }
}

/// The modification pairs a modify action contributes: the `(field, value)` of
/// each set or append modification that carries a value, later ones layering
/// atop earlier ones on the same field.
pub open spec fn spec_collect_mods(
    acc: Seq<(Seq<char>, ValueView)>,
    mods: Seq<ModView>,
) -> Seq<(Seq<char>, ValueView)>
    decreases mods.len(),
{
    if mods.len() == 0 {
        acc
    } else {
        let acc2 = if spec_mod_applies(mods[0]) {
            alist_upsert(acc, mods[0].field, mods[0].value->0)
        } else {
            acc
        };
        spec_collect_mods(acc2, mods.subrange(1, mods.len() as int))
    }
}

/// Whether a modification contributes a field-value pair to a decision.
pub open spec fn spec_mod_applies(m: ModView) -> bool {
    (m.modification_type is SetField || m.modification_type is Append) && m.value is Some
}

/// The decision a single matching rule produces, before combination.
pub open spec fn spec_rule_decision(rule: RuleView) -> DecisionView {
    match rule.action.decision {
        DecisionType::Allow => spec_fresh_decision(DecisionType::Allow, None),
        DecisionType::Deny => DecisionView {
            metadata: rule.action.metadata,
            ..spec_fresh_decision(
                DecisionType::Deny,
                Some(spec_rule_reason(rule, "Denied by rule: "@)),
            )
        },
        DecisionType::Warn => DecisionView {
            metadata: rule.action.metadata,
            ..spec_fresh_decision(
                DecisionType::Warn,
                Some(spec_rule_reason(rule, "Warning from rule: "@)),
            )
        },
        DecisionType::Modify => DecisionView {
            modifications: spec_collect_mods(Seq::empty(), rule.action.modifications),
            ..spec_fresh_decision(DecisionType::Modify, None)
        },
    }
}

/// Insert a rule into a priority-descending list, after every rule of equal or
/// higher priority, so that sorting stays stable.
pub open spec fn spec_insert_rule_desc(r: RuleView, s: Seq<RuleView>) -> Seq<RuleView>
    decreases s.len(),
{
    if s.len() == 0 {
        seq![r]
    } else if s[0].priority > r.priority {
        seq![s[0]] + spec_insert_rule_desc(r, s.subrange(1, s.len() as int))
    } else {
        seq![r] + s
    }
}

/// Stable sort by priority, descending: rules of equal priority keep their
/// relative order.
pub open spec fn spec_sort_rules(s: Seq<RuleView>) -> Seq<RuleView>
    decreases s.len(),
{
    if s.len() == 0 {
        Seq::empty()
    } else {
        spec_insert_rule_desc(s[0], spec_sort_rules(s.subrange(1, s.len() as int)))
    }
}

/// One policy's decision: its enabled rules are taken in stable
/// priority-descending order and folded left to right. A matching deny rule
/// ends evaluation at once; the first other matching rule's decision is kept;
/// further matching modify rules merge their modifications.
pub open spec fn spec_eval_rules(
    rules: Seq<RuleView>,
    ctx: CtxView,
    result: DecisionView,
    matched: Seq<Seq<char>>,
) -> Result<DecisionView, EvalErr>
    decreases rules.len(),
{
    if rules.len() == 0 {
        Ok(DecisionView { matched_rules: matched, ..result })
    } else {
        let rest = rules.subrange(1, rules.len() as int);
        match spec_eval_cond(rules[0].condition, ctx) {
            Err(e) => Err(e),
            Ok(false) => spec_eval_rules(rest, ctx, result, matched),
            Ok(true) => {
                let matched2 = matched.push(rules[0].id);
                let d = spec_rule_decision(rules[0]);
                if d.decision is Deny {
                    Ok(DecisionView { matched_rules: matched2, ..d })
                } else if result.decision is Allow {
                    spec_eval_rules(rest, ctx, d, matched2)
                } else if result.decision is Modify && d.decision is Modify {
                    spec_eval_rules(
                        rest,
                        ctx,
                        DecisionView {
                            modifications: alist_merge(result.modifications, d.modifications),
                            ..result
                        },
                        matched2,
                    )
                } else {
                    spec_eval_rules(rest, ctx, result, matched2)
                }
            },
        }
    }
}

/// The decision of one policy against a context.
pub open spec fn spec_eval_policy(p: PolicyView, ctx: CtxView) -> Result<DecisionView, EvalErr> {
    spec_eval_rules(
        spec_sort_rules(spec_enabled_rules(p.rules)),
        ctx,
        spec_fresh_decision(DecisionType::Allow, None),
        Seq::empty(),
    )
}

/// The combined decision over a policy list, folded in order. A deny from any
/// policy is final and names that policy alone. A warn is kept while the
/// result is still a plain allow. Modifications accumulate across policies,
/// later ones layering atop earlier ones on field collisions. The ids of warn
/// and modify policies and of every matched rule are collected along the way.
pub open spec fn spec_eval_policies(
    ps: Seq<PolicyView>,
    ctx: CtxView,
    result: DecisionView,
    mp: Seq<Seq<char>>,
    mr: Seq<Seq<char>>,
) -> Result<DecisionView, EvalErr>
    decreases ps.len(),
{
    if ps.len() == 0 {
        let with_policies = if mp.len() > 0 {
            DecisionView { matched_policies: mp, ..result }
        } else {
            result
        };
        Ok(
            if mr.len() > 0 {
                DecisionView { matched_rules: mr, ..with_policies }
            } else {
                with_policies
            },
        )
    } else {
        let rest = ps.subrange(1, ps.len() as int);
        let p = ps[0];
        if !p.enabled {
            spec_eval_policies(rest, ctx, result, mp, mr)
        } else {
            match spec_eval_policy(p, ctx) {
                Err(e) => Err(e),
                Ok(pr) => if pr.decision is Deny {
                    Ok(DecisionView { matched_policies: seq![p.id], ..pr })
                } else {
                    let result1 = if pr.decision is Warn && result.decision is Allow {
                        pr
                    } else {
                        result
                    };
                    let result2 = if pr.decision is Modify {
                        DecisionView {
                            decision: DecisionType::Modify,
                            modifications: alist_merge(result1.modifications, pr.modifications),
                            ..result1
                        }
                    } else {
                        result1
                    };
                    let mp2 = if pr.decision is Warn || pr.decision is Modify {
                        mp.push(p.id)
                    } else {
                        mp
                    };
                    spec_eval_policies(rest, ctx, result2, mp2, mr + pr.matched_rules)
                },
            }
        }
    }
}

/// The decision over a policy list against a context, before timing: disabled
/// policies are skipped, the rest are folded in the order given.
pub open spec fn spec_evaluate(ps: Seq<PolicyView>, ctx: CtxView) -> Result<DecisionView, EvalErr> {
    spec_eval_policies(
        ps,
        ctx,
        spec_fresh_decision(DecisionType::Allow, None),
        Seq::empty(),
        Seq::empty(),
    )
}

/// Check whether the context value equals any member of the literal array.
fn any_equal(a: &ConditionValue, items: &Vec<ConditionValue>) -> (r: bool)
    ensures
        r == spec_any_equal(a@, value_views(items@)),
{
    proof {
        lemma_value_views(items@);
    }
    let mut i: usize = 0;
    while i < items.len()
        invariant
            i <= items.len(),
            forall|j: int|
                0 <= j < i as int ==> !spec_values_equal(a@, #[trigger] value_views(items@)[j]),
        decreases items@.len() - i,
    {
        proof {
            lemma_value_views(items@);
        }
        let here = values_equal(a, &items[i]);
        proof {
            assert(value_views(items@)[i as int] == items@[i as int].deep_view());
        }
        if here {
            proof {
                assert(spec_values_equal(a@, value_views(items@)[i as int]));
            }
            return true;
        }
        i = i + 1;
    }
    proof {
        lemma_value_views(items@);
    }
    false
}

/// Check whether any member of the context array equals the literal.
fn any_member_equal(items: &Vec<ConditionValue>, e: &ConditionValue) -> (r: bool)
    ensures
        r == spec_any_member_equal(value_views(items@), e@),
{
    proof {
        lemma_value_views(items@);
    }
    let mut i: usize = 0;
    while i < items.len()
        invariant
            i <= items.len(),
            forall|j: int|
                0 <= j < i as int ==> !spec_values_equal(#[trigger] value_views(items@)[j], e@),
        decreases items@.len() - i,
    {
        proof {
            lemma_value_views(items@);
        }
        let here = values_equal(&items[i], e);
        proof {
            assert(value_views(items@)[i as int] == items@[i as int].deep_view());
        }
        if here {
            proof {
                assert(spec_values_equal(value_views(items@)[i as int], e@));
            }
            return true;
        }
        i = i + 1;
    }
    proof {
        lemma_value_views(items@);
    }
    false
}

} // verus!

verus! {

/// Whether an exec decision outcome agrees with the specified one, up to the
/// timing field, mapping each specification error to its error kind.
pub open spec fn decision_result_matches(
    r: Result<PolicyDecision, Error>,
    s: Result<DecisionView, EvalErr>,
) -> bool {
    match s {
        Ok(dv) => r matches Ok(d) && d@ == dv,
        Err(EvalErr::Structure) => r matches Err(e) && e is Evaluation,
        Err(EvalErr::TypeMismatch) => r matches Err(e) && e is Evaluation,
        Err(EvalErr::BadRegex(p)) => r matches Err(e) && (e matches Error::Expression {
            expression,
            ..
        } && expression matches Some(q) && q@ == p),
    }
}

/// Build the decision a single matching rule produces.
fn build_rule_decision(rule: &PolicyRule) -> (r: PolicyDecision)
    ensures
        r@ == spec_rule_decision(rule@),
{
    match rule.action.decision {
        DecisionType::Allow => PolicyDecision::allow(),
        DecisionType::Deny => {
            let reason = rule_reason(rule, "Denied by rule: ");
            let mut d = PolicyDecision::deny(reason.as_str());
            d.metadata = clone_value_alist(&rule.action.metadata);
            d
        },
        DecisionType::Warn => {
            let reason = rule_reason(rule, "Warning from rule: ");
            let mut d = PolicyDecision::warn(reason.as_str());
            d.metadata = clone_value_alist(&rule.action.metadata);
            d
        },
        DecisionType::Modify => {
            let mods = collect_mods(&rule.action.modifications);
            PolicyDecision::modify(mods)
        },
    }
}

/// The reason string a deny or warn rule carries.
fn rule_reason(rule: &PolicyRule, prefix: &str) -> (r: String)
    ensures
        r@ == spec_rule_reason(rule@, prefix@),
{
    match &rule.action.reason {
        Some(s) => s.clone(),
        None => vstd::string::StringExecFns::concat(prefix.to_owned(), rule.name.as_str()),
    }
}

/// Collect the field-value pairs of the set and append modifications that
/// carry a value.
fn collect_mods(mods: &Vec<crate::action::Modification>) -> (r: Vec<(String, ConditionValue)>)
    ensures
        r.deep_view() == spec_collect_mods(Seq::empty(), mods.deep_view()),
{
    let mut out: Vec<(String, ConditionValue)> = Vec::new();
    let mut i: usize = 0;
    proof {
        assert(out.deep_view() =~= Seq::<(Seq<char>, ValueView)>::empty());
        assert(mods.deep_view().subrange(0, mods.deep_view().len() as int) =~= mods.deep_view());
    }
    while i < mods.len()
        invariant
            i <= mods@.len(),
            spec_collect_mods(Seq::empty(), mods.deep_view()) == spec_collect_mods(
                out.deep_view(),
                mods.deep_view().subrange(i as int, mods.deep_view().len() as int),
            ),
        decreases mods@.len() - i,
    {
        let ghost suffix = mods.deep_view().subrange(i as int, mods.deep_view().len() as int);
        proof {
            assert(suffix[0] == mods.deep_view()[i as int]);
            assert(suffix.subrange(1, suffix.len() as int) =~= mods.deep_view().subrange(
                i + 1 as int,
                mods.deep_view().len() as int,
            ));
        }
        let m = &mods[i];
        let applies = match m.modification_type {
            crate::action::ModificationType::SetField | crate::action::ModificationType::Append => {
                m.value.is_some()
            },
            _ => false,
        };
        if applies {
            let v = match &m.value {
                Some(v) => v.clone(),
                None => ConditionValue::Null,
            };
            alist_set(&mut out, m.field.clone(), v);
        }
        i = i + 1;
    }
    proof {
        assert(mods.deep_view().subrange(
            mods.deep_view().len() as int,
            mods.deep_view().len() as int,
        ) =~= Seq::<ModView>::empty());
    }
    out
}

/// Insert a rule reference into a priority-descending list, after its equals.
fn insert_rule_desc<'a>(r: &'a PolicyRule, v: Vec<&'a PolicyRule>) -> (out: Vec<&'a PolicyRule>)
    ensures
        out.deep_view() == spec_insert_rule_desc(r@, v.deep_view()),
{
    let mut j: usize = 0;
    while j < v.len()
        invariant
            j <= v@.len(),
            forall|k: int| 0 <= k < j as int ==> (#[trigger] v.deep_view()[k]).priority > r@.priority,
        decreases v@.len() - j,
    {
        proof {
            assert(v.deep_view()[j as int] == v@[j as int].deep_view());
        }
        if !(v[j].priority > r.priority) {
            break;
        }
        j = j + 1;
    }
    proof {
        lemma_insert_rule_at(r@, v.deep_view(), j as int);
    }
    let mut out = v;
    out.insert(j, r);
    proof {
        assert(out.deep_view() =~= v.deep_view().insert(j as int, r@));
    }
    out
}

/// When the first `j` entries outrank `r` and the next does not, the stable
/// insertion lands exactly at position `j`.
proof fn lemma_insert_rule_at(r: RuleView, s: Seq<RuleView>, j: int)
    requires
        0 <= j <= s.len(),
        forall|k: int| 0 <= k < j ==> (#[trigger] s[k]).priority > r.priority,
        j < s.len() ==> !(s[j].priority > r.priority),
    ensures
        spec_insert_rule_desc(r, s) == s.insert(j, r),
    decreases j,
{
    if s.len() == 0 {
        assert(seq![r] =~= s.insert(0, r));
    } else if j == 0 {
        assert(seq![r] + s =~= s.insert(0, r));
    } else {
        let rest = s.subrange(1, s.len() as int);
        assert forall|k: int| 0 <= k < j - 1 implies (#[trigger] rest[k]).priority > r.priority by {
            assert(rest[k] == s[k + 1]);
        }
        assert(j - 1 < rest.len() ==> rest[j - 1] == s[j]);
        lemma_insert_rule_at(r, rest, j - 1);
        assert(spec_insert_rule_desc(r, s) == seq![s[0]] + rest.insert(j - 1, r));
        assert(seq![s[0]] + rest.insert(j - 1, r) =~= s.insert(j, r));
    }
}

/// Sort rule references by priority, descending and stable.
fn sort_rules_desc<'a>(v: Vec<&'a PolicyRule>) -> (out: Vec<&'a PolicyRule>)
    ensures
        out.deep_view() == spec_sort_rules(v.deep_view()),
{
    let mut out: Vec<&'a PolicyRule> = Vec::new();
    let mut i: usize = v.len();
    proof {
        assert(out.deep_view() =~= Seq::<RuleView>::empty());
        assert(v.deep_view().subrange(v@.len() as int, v@.len() as int)
            =~= Seq::<RuleView>::empty());
    }
    while i > 0
        invariant
            i <= v@.len(),
            out.deep_view() == spec_sort_rules(
                v.deep_view().subrange(i as int, v.deep_view().len() as int),
            ),
        decreases i,
    {
        i = i - 1;
        let ghost suffix = v.deep_view().subrange(i as int, v.deep_view().len() as int);
        proof {
            assert(suffix[0] == v.deep_view()[i as int]);
            assert(suffix.subrange(1, suffix.len() as int) =~= v.deep_view().subrange(
                i + 1 as int,
                v.deep_view().len() as int,
            ));
            assert(v.deep_view()[i as int] == v@[i as int].deep_view());
        }
        out = insert_rule_desc(v[i], out);
    }
    proof {
        assert(v.deep_view().subrange(0, v.deep_view().len() as int) =~= v.deep_view());
    }
    out
}

/// Merge the bindings of `src` into `dst`, in order, overwriting on collision.
fn merge_mods(dst: &mut Vec<(String, ConditionValue)>, src: &Vec<(String, ConditionValue)>)
    ensures
        final(dst).deep_view() == alist_merge(old(dst).deep_view(), src.deep_view()),
{
    let mut i: usize = 0;
    proof {
        assert(src.deep_view().subrange(0, src.deep_view().len() as int) =~= src.deep_view());
    }
    while i < src.len()
        invariant
            i <= src@.len(),
            alist_merge(old(dst).deep_view(), src.deep_view()) == alist_merge(
                dst.deep_view(),
                src.deep_view().subrange(i as int, src.deep_view().len() as int),
            ),
        decreases src@.len() - i,
    {
        let ghost suffix = src.deep_view().subrange(i as int, src.deep_view().len() as int);
        proof {
            assert(suffix[0] == src.deep_view()[i as int]);
            assert(suffix.subrange(1, suffix.len() as int) =~= src.deep_view().subrange(
                i + 1 as int,
                src.deep_view().len() as int,
            ));
        }
        let k = src[i].0.clone();
        let val = src[i].1.clone();
        alist_set(dst, k, val);
        i = i + 1;
    }
    proof {
        assert(src.deep_view().subrange(src.deep_view().len() as int, src.deep_view().len() as int)
            =~= Seq::<(Seq<char>, ValueView)>::empty());
    }
}

impl Evaluator {
    /// Evaluate a single policy: its enabled rules in stable
    /// priority-descending order, combined as the specification says.
    pub fn evaluate_policy(&self, policy: &Policy, context: &EvaluationContext) -> (r: Result<
        PolicyDecision,
        Error,
    >)
        ensures
            decision_result_matches(r, spec_eval_policy(policy@, context@)),
    {
        let enabled = policy.enabled_rules();
        let rules = sort_rules_desc(enabled);
        let mut result = PolicyDecision::allow();
        let mut matched: Vec<String> = Vec::new();
        let ghost all = rules.deep_view();
        let mut i: usize = 0;
        proof {
            assert(matched.deep_view() =~= Seq::<Seq<char>>::empty());
            assert(all.subrange(0, all.len() as int) =~= all);
        }
        while i < rules.len()
            invariant
                i <= all.len(),
                all == rules.deep_view(),
                spec_eval_policy(policy@, context@) == spec_eval_rules(
                    all.subrange(i as int, all.len() as int),
                    context@,
                    result@,
                    matched.deep_view(),
                ),
            decreases all.len() - i,
        {
            let ghost suffix = all.subrange(i as int, all.len() as int);
            proof {
                assert(suffix[0] == all[i as int]);
                assert(suffix.subrange(1, suffix.len() as int) =~= all.subrange(
                    i + 1 as int,
                    all.len() as int,
                ));
                assert(all[i as int] == rules@[i as int].deep_view());
            }
            let rule = rules[i];
            let matched_here = match self.evaluate_condition(&rule.condition, context) {
                Ok(b) => b,
                Err(e) => {
                    return Err(e);
                },
            };
            if matched_here {
                let ghost matched_before = matched.deep_view();
                matched.push(rule.id.clone());
                proof {
                    assert(matched.deep_view() =~= matched_before.push(rule@.id));
                }
                let d = build_rule_decision(rule);
                let d_deny = match d.decision {
                    DecisionType::Deny => true,
                    _ => false,
                };
                if d_deny {
                    let mut final_d = d;
                    final_d.matched_rules = matched;
                    return Ok(final_d);
                }
                let result_allow = match result.decision {
                    DecisionType::Allow => true,
                    _ => false,
                };
                let result_modify = match result.decision {
                    DecisionType::Modify => true,
                    _ => false,
                };
                let d_modify = match d.decision {
                    DecisionType::Modify => true,
                    _ => false,
                };
                if result_allow {
                    result = d;
                } else if result_modify && d_modify {
                    merge_mods(&mut result.modifications, &d.modifications);
                }
            }
            i = i + 1;
        }
        proof {
            assert(all.subrange(all.len() as int, all.len() as int) =~= Seq::<RuleView>::empty());
        }
        result.matched_rules = matched;
        Ok(result)
    }

    /// Evaluate policies against the given context.
    ///
    /// Policies are taken in the order given (the engine passes them sorted by
    /// priority, highest first); disabled policies are skipped; the first deny
    /// is final. The returned decision carries no timing (the engine stamps
    /// it).
    pub fn evaluate(&self, policies: &Vec<Policy>, context: &EvaluationContext) -> (r: Result<
        PolicyDecision,
        Error,
    >)
        ensures
            decision_result_matches(r, spec_evaluate(policies.deep_view(), context@)),
    {
        let mut result = PolicyDecision::allow();
        let mut matched_policies: Vec<String> = Vec::new();
        let mut matched_rules: Vec<String> = Vec::new();
        let ghost all = policies.deep_view();
        let mut i: usize = 0;
        proof {
            assert(matched_policies.deep_view() =~= Seq::<Seq<char>>::empty());
            assert(matched_rules.deep_view() =~= Seq::<Seq<char>>::empty());
            assert(all.subrange(0, all.len() as int) =~= all);
        }
        while i < policies.len()
            invariant
                i <= all.len(),
                all == policies.deep_view(),
                spec_evaluate(policies.deep_view(), context@) == spec_eval_policies(
                    all.subrange(i as int, all.len() as int),
                    context@,
                    result@,
                    matched_policies.deep_view(),
                    matched_rules.deep_view(),
                ),
            decreases all.len() - i,
        {
            let ghost suffix = all.subrange(i as int, all.len() as int);
            proof {
                assert(suffix[0] == all[i as int]);
                assert(suffix.subrange(1, suffix.len() as int) =~= all.subrange(
                    i + 1 as int,
                    all.len() as int,
                ));
                assert(all[i as int] == policies@[i as int].deep_view());
            }
            let policy = &policies[i];
            if policy.enabled {
                let pr = match self.evaluate_policy(policy, context) {
                    Ok(d) => d,
                    Err(e) => {
                        return Err(e);
                    },
                };
                let pr_deny = match pr.decision {
                    DecisionType::Deny => true,
                    _ => false,
                };
                if pr_deny {
                    let mut final_d = pr;
                    let mut only: Vec<String> = Vec::new();
                    only.push(policy.id.clone());
                    proof {
                        assert(only.deep_view() =~= seq![policy@.id]);
                    }
                    final_d.matched_policies = only;
                    return Ok(final_d);
                }
                let pr_warn = match pr.decision {
                    DecisionType::Warn => true,
                    _ => false,
                };
                let pr_modify = match pr.decision {
                    DecisionType::Modify => true,
                    _ => false,
                };
                let result_allow = match result.decision {
                    DecisionType::Allow => true,
                    _ => false,
                };
                append_strings(&mut matched_rules, &pr.matched_rules);
                if pr_warn {
                    let ghost mp_before = matched_policies.deep_view();
                    matched_policies.push(policy.id.clone());
                    proof {
                        assert(matched_policies.deep_view() =~= mp_before.push(policy@.id));
                    }
                    if result_allow {
                        result = pr;
                    }
                } else if pr_modify {
                    let ghost mp_before = matched_policies.deep_view();
                    matched_policies.push(policy.id.clone());
                    proof {
                        assert(matched_policies.deep_view() =~= mp_before.push(policy@.id));
                    }
                    result.decision = DecisionType::Modify;
                    merge_mods(&mut result.modifications, &pr.modifications);
                }
            }
            i = i + 1;
        }
        proof {
            assert(all.subrange(all.len() as int, all.len() as int) =~= Seq::<PolicyView>::empty());
        }
        if matched_policies.len() > 0 {
            result.matched_policies = matched_policies;
        }
        if matched_rules.len() > 0 {
            result.matched_rules = matched_rules;
        }
        Ok(result)
    }
}

/// Append copies of the strings of `src` onto the end of `dst`.
fn append_strings(dst: &mut Vec<String>, src: &Vec<String>)
    ensures
        final(dst).deep_view() == old(dst).deep_view() + src.deep_view(),
{
    let mut i: usize = 0;
    proof {
        assert(dst.deep_view() =~= old(dst).deep_view() + src.deep_view().subrange(0, 0));
    }
    while i < src.len()
        invariant
            i <= src@.len(),
            dst.deep_view() =~= old(dst).deep_view() + src.deep_view().subrange(0, i as int),
        decreases src@.len() - i,
    {
        let ghost pre = dst.deep_view();
        dst.push(src[i].clone());
        proof {
            assert(dst.deep_view() =~~= pre.push(src.deep_view()[i as int]));
            assert(src.deep_view().subrange(0, i + 1 as int) =~= src.deep_view().subrange(
                0,
                i as int,
            ).push(src.deep_view()[i as int]));
            assert(dst.deep_view() =~= old(dst).deep_view() + src.deep_view().subrange(
                0,
                i + 1 as int,
            ));
        }
        i = i + 1;
    }
    proof {
        assert(src.deep_view().subrange(0, src@.len() as int) =~= src.deep_view());
    }
}

} // verus!

verus! {

/// Evaluation is deterministic: against one policy list and one context there
/// is exactly one decision, because the evaluator's result is pinned to a
/// function of its inputs alone.
pub proof fn lemma_evaluate_deterministic(
    ps: Seq<PolicyView>,
    ctx: CtxView,
    d1: DecisionView,
    d2: DecisionView,
)
    requires
        spec_evaluate(ps, ctx) == Ok::<DecisionView, EvalErr>(d1),
        spec_evaluate(ps, ctx) == Ok::<DecisionView, EvalErr>(d2),
    ensures
        d1 == d2,
{
}

/// The decision of a single matching rule is well formed.
proof fn lemma_rule_decision_wf(rule: RuleView)
    ensures
        crate::decision::spec_decision_wf(spec_rule_decision(rule)),
{
}

/// Folding rules preserves decision well-formedness.
proof fn lemma_eval_rules_wf(
    rules: Seq<RuleView>,
    ctx: CtxView,
    result: DecisionView,
    matched: Seq<Seq<char>>,
)
    requires
        crate::decision::spec_decision_wf(result),
    ensures
        spec_eval_rules(rules, ctx, result, matched) matches Ok(d)
            ==> crate::decision::spec_decision_wf(d),
    decreases rules.len(),
{
    if rules.len() > 0 {
        let rest = rules.subrange(1, rules.len() as int);
        match spec_eval_cond(rules[0].condition, ctx) {
            Err(_) => {},
            Ok(false) => {
                lemma_eval_rules_wf(rest, ctx, result, matched);
            },
            Ok(true) => {
                let matched2 = matched.push(rules[0].id);
                let d = spec_rule_decision(rules[0]);
                lemma_rule_decision_wf(rules[0]);
                if d.decision is Deny {
                } else if result.decision is Allow {
                    lemma_eval_rules_wf(rest, ctx, d, matched2);
                } else if result.decision is Modify && d.decision is Modify {
                    lemma_eval_rules_wf(
                        rest,
                        ctx,
                        DecisionView {
                            modifications: alist_merge(result.modifications, d.modifications),
                            ..result
                        },
                        matched2,
                    );
                } else {
                    lemma_eval_rules_wf(rest, ctx, result, matched2);
                }
            },
        }
    }
}

/// A single policy's decision is well formed.
pub proof fn lemma_eval_policy_wf(p: PolicyView, ctx: CtxView)
    ensures
        spec_eval_policy(p, ctx) matches Ok(d) ==> crate::decision::spec_decision_wf(d),
{
    lemma_eval_rules_wf(
        spec_sort_rules(spec_enabled_rules(p.rules)),
        ctx,
        spec_fresh_decision(DecisionType::Allow, None),
        Seq::empty(),
    );
}

/// Folding policies preserves well-formedness of a non-deny accumulator.
proof fn lemma_eval_policies_wf(
    ps: Seq<PolicyView>,
    ctx: CtxView,
    result: DecisionView,
    mp: Seq<Seq<char>>,
    mr: Seq<Seq<char>>,
)
    requires
        crate::decision::spec_decision_wf(result),
        !(result.decision is Deny),
    ensures
        spec_eval_policies(ps, ctx, result, mp, mr) matches Ok(d)
            ==> crate::decision::spec_decision_wf(d),
    decreases ps.len(),
{
    if ps.len() > 0 {
        let rest = ps.subrange(1, ps.len() as int);
        let p = ps[0];
        if !p.enabled {
            lemma_eval_policies_wf(rest, ctx, result, mp, mr);
        } else {
            match spec_eval_policy(p, ctx) {
                Err(_) => {},
                Ok(pr) => {
                    lemma_eval_policy_wf(p, ctx);
                    if pr.decision is Deny {
                    } else {
                        let result1 = if pr.decision is Warn && result.decision is Allow {
                            pr
                        } else {
                            result
                        };
                        let result2 = if pr.decision is Modify {
                            DecisionView {
                                decision: DecisionType::Modify,
                                modifications: alist_merge(
                                    result1.modifications,
                                    pr.modifications,
                                ),
                                ..result1
                            }
                        } else {
                            result1
                        };
                        let mp2 = if pr.decision is Warn || pr.decision is Modify {
                            mp.push(p.id)
                        } else {
                            mp
                        };
                        lemma_eval_policies_wf(rest, ctx, result2, mp2, mr + pr.matched_rules);
                    }
                },
            }
        }
    }
}

/// A decision the evaluator returns reports `allowed == false` exactly when its
/// kind is deny.
pub proof fn lemma_evaluate_allowed_iff_not_deny(ps: Seq<PolicyView>, ctx: CtxView)
    ensures
        spec_evaluate(ps, ctx) matches Ok(d) ==> ((d.allowed == false) <==> d.decision is Deny),
{
    lemma_eval_policies_wf(
        ps,
        ctx,
        spec_fresh_decision(DecisionType::Allow, None),
        Seq::empty(),
        Seq::empty(),
    );
}

/// An equality test on an absent field is false, and an absence test on it is
/// true.
pub proof fn lemma_absent_field(c: CondView, ctx: CtxView)
    requires
        c.field matches Some(f) && spec_ctx_get(ctx, f) is None,
        c.value is Some,
    ensures
        c.operator is Equals ==> spec_eval_cond(c, ctx) == Ok::<bool, EvalErr>(false),
        c.operator is NotExists ==> spec_eval_cond(c, ctx) == Ok::<bool, EvalErr>(true),
{
}

/// When the evaluator denies, exactly one enabled policy produced that deny:
/// the decision names that policy alone, and its matched rules are that
/// policy's own — no policy after it contributes anything.
pub proof fn lemma_deny_is_final(ps: Seq<PolicyView>, ctx: CtxView, d: DecisionView)
    requires
        spec_evaluate(ps, ctx) == Ok::<DecisionView, EvalErr>(d),
        d.decision is Deny,
    ensures
        exists|i: int|
            {
                &&& 0 <= i < ps.len()
                &&& (#[trigger] ps[i]).enabled
                &&& spec_eval_policy(ps[i], ctx) matches Ok(pr) && pr.decision is Deny
                    && d.matched_policies == seq![ps[i].id] && d.matched_rules == pr.matched_rules
            },
{
    lemma_deny_from_fold(
        ps,
        ctx,
        spec_fresh_decision(DecisionType::Allow, None),
        Seq::empty(),
        Seq::empty(),
        d,
    );
}

/// A deny coming out of the policy fold comes from one enabled policy in the
/// remaining list, whenever the accumulator is not already a deny.
proof fn lemma_deny_from_fold(
    ps: Seq<PolicyView>,
    ctx: CtxView,
    result: DecisionView,
    mp: Seq<Seq<char>>,
    mr: Seq<Seq<char>>,
    d: DecisionView,
)
    requires
        !(result.decision is Deny),
        spec_eval_policies(ps, ctx, result, mp, mr) == Ok::<DecisionView, EvalErr>(d),
        d.decision is Deny,
    ensures
        exists|i: int|
            {
                &&& 0 <= i < ps.len()
                &&& (#[trigger] ps[i]).enabled
                &&& spec_eval_policy(ps[i], ctx) matches Ok(pr) && pr.decision is Deny
                    && d.matched_policies == seq![ps[i].id] && d.matched_rules == pr.matched_rules
            },
    decreases ps.len(),
{
    let rest = ps.subrange(1, ps.len() as int);
    let p = ps[0];
    if !p.enabled {
        lemma_deny_from_fold(rest, ctx, result, mp, mr, d);
        lemma_deny_witness_shift(ps, rest, ctx, d);
    } else {
        match spec_eval_policy(p, ctx) {
            Err(_) => {},
            Ok(pr) => {
                if pr.decision is Deny {
                    assert(0 <= 0 < ps.len() && ps[0].enabled && (spec_eval_policy(ps[0], ctx)
                        matches Ok(pr0) && pr0.decision is Deny && d.matched_policies == seq![
                        ps[0].id,
                    ] && d.matched_rules == pr0.matched_rules));
                } else {
                    let result1 = if pr.decision is Warn && result.decision is Allow {
                        pr
                    } else {
                        result
                    };
                    let result2 = if pr.decision is Modify {
                        DecisionView {
                            decision: DecisionType::Modify,
                            modifications: alist_merge(result1.modifications, pr.modifications),
                            ..result1
                        }
                    } else {
                        result1
                    };
                    let mp2 = if pr.decision is Warn || pr.decision is Modify {
                        mp.push(p.id)
                    } else {
                        mp
                    };
                    lemma_deny_from_fold(rest, ctx, result2, mp2, mr + pr.matched_rules, d);
                    lemma_deny_witness_shift(ps, rest, ctx, d);
                }
            },
        }
    }
}

/// Shift a deny witness from the tail of a policy list to the whole list.
proof fn lemma_deny_witness_shift(ps: Seq<PolicyView>, rest: Seq<PolicyView>, ctx: CtxView, d: DecisionView)
    requires
        ps.len() > 0,
        rest == ps.subrange(1, ps.len() as int),
        exists|i: int|
            {
                &&& 0 <= i < rest.len()
                &&& (#[trigger] rest[i]).enabled
                &&& spec_eval_policy(rest[i], ctx) matches Ok(pr) && pr.decision is Deny
                    && d.matched_policies == seq![rest[i].id] && d.matched_rules
                    == pr.matched_rules
            },
    ensures
        exists|i: int|
            {
                &&& 0 <= i < ps.len()
                &&& (#[trigger] ps[i]).enabled
                &&& spec_eval_policy(ps[i], ctx) matches Ok(pr) && pr.decision is Deny
                    && d.matched_policies == seq![ps[i].id] && d.matched_rules == pr.matched_rules
            },
{
    let i = choose|i: int|
        {
            &&& 0 <= i < rest.len()
            &&& (#[trigger] rest[i]).enabled
            &&& spec_eval_policy(rest[i], ctx) matches Ok(pr) && pr.decision is Deny
                && d.matched_policies == seq![rest[i].id] && d.matched_rules == pr.matched_rules
        };
    assert(ps[i + 1] == rest[i]);
    assert(0 <= i + 1 < ps.len() && ps[i + 1].enabled && (spec_eval_policy(ps[i + 1], ctx)
        matches Ok(pr) && pr.decision is Deny && d.matched_policies == seq![ps[i + 1].id]
        && d.matched_rules == pr.matched_rules));
}

/// Applying one and the same modification twice is the same as applying it
/// once: the final mapping binds the field to that value, and the second
/// application changes nothing at all.
pub proof fn lemma_modification_idempotent(
    mods: Seq<(Seq<char>, ValueView)>,
    field: Seq<char>,
    value: ValueView,
)
    ensures
        alist_upsert(alist_upsert(mods, field, value), field, value) == alist_upsert(
            mods,
            field,
            value,
        ),
        alist_lookup(alist_upsert(alist_upsert(mods, field, value), field, value), field)
            == Some(value),
{
    crate::alist::lemma_upsert_idempotent(mods, field, value);
    crate::alist::lemma_upsert_lookup(mods, field, value, field);
}

} // verus!

//! Policy documents: containers of policies with a wire format.

use vstd::prelude::*;
use crate::error::Error;
use crate::json::JsonNode;
use crate::policy::{Policy, PolicyView, spec_policy_valid, clone_rules};
use crate::rule::RuleView;

verus! {

broadcast use
    vstd::seq::axiom_seq_index_decreases,
    vstd::std_specs::vec::axiom_vec_index_decreases,
    vstd::std_specs::vec::axiom_vec_decreases_to_view,
;

/// A policy document that can contain one or more policies.
#[derive(Debug)]
pub struct PolicyDocument {
    /// API version of the policy document format
    pub api_version: String,
    /// Kind of document
    pub kind: String,
    /// Policies defined in this document
    pub policies: Vec<Policy>,
}

/// The mathematical shape of a [`PolicyDocument`].
#[verifier::ext_equal]
pub struct DocumentView {
    /// API version of the policy document format
    pub api_version: Seq<char>,
    /// Kind of document
    pub kind: Seq<char>,
    /// Policies defined in this document
    pub policies: Seq<PolicyView>,
}

impl DeepView for PolicyDocument {
    type V = DocumentView;

    open spec fn deep_view(&self) -> DocumentView {
        DocumentView {
            api_version: self.api_version@,
            kind: self.kind@,
            policies: self.policies.deep_view(),
        }
    }
}

impl View for PolicyDocument {
    type V = DocumentView;

    open spec fn view(&self) -> DocumentView {
        self.deep_view()
    }
}

/// The default `apiVersion` of a policy document.
pub open spec fn spec_default_api_version() -> Seq<char> {
    "policy.llm-dev-ops.io/v1"@
}

/// The default `kind` of a policy document.
pub open spec fn spec_default_kind() -> Seq<char> {
    "PolicyDocument"@
}

/// A document is valid when every policy in it is.
pub open spec fn spec_document_valid(d: DocumentView) -> bool {
    forall|i: int| 0 <= i < d.policies.len() ==> spec_policy_valid(#[trigger] d.policies[i])
}

impl PolicyDocument {
    /// Create a new empty policy document.
    pub fn new() -> (r: Self)
        ensures
            r@.api_version == spec_default_api_version(),
            r@.kind == spec_default_kind(),
            r@.policies == Seq::<PolicyView>::empty(),
    {
        let r = PolicyDocument {
            api_version: "policy.llm-dev-ops.io/v1".to_owned(),
            kind: "PolicyDocument".to_owned(),
            policies: Vec::new(),
        };
        proof {
            assert(r.policies.deep_view() =~= Seq::<PolicyView>::empty());
        }
        r
    }

    /// Create a policy document with the given policies.
    pub fn with_policies(policies: Vec<Policy>) -> (r: Self)
        ensures
            r@.api_version == spec_default_api_version(),
            r@.kind == spec_default_kind(),
            r@.policies == policies.deep_view(),
    {
        PolicyDocument {
            api_version: "policy.llm-dev-ops.io/v1".to_owned(),
            kind: "PolicyDocument".to_owned(),
            policies,
        }
    }

    /// Add a policy to the document.
    pub fn add_policy(&mut self, policy: Policy)
        ensures
            final(self)@ == (DocumentView {
                policies: old(self)@.policies.push(policy@),
                ..old(self)@
            }),
    {
        self.policies.push(policy);
        proof {
            assert(self.policies.deep_view() =~= old(self).policies.deep_view().push(
                policy.deep_view(),
            ));
        }
    }

    /// Validate all policies in the document.
    pub fn validate(&self) -> (r: Result<(), Error>)
        ensures
            r is Ok <==> spec_document_valid(self@),
            r matches Err(e) ==> e is Validation,
    {
        let mut i: usize = 0;
        while i < self.policies.len()
            invariant
                i <= self.policies.len(),
                forall|j: int| 0 <= j < i as int ==> spec_policy_valid(#[trigger] self@.policies[j]),
            decreases self.policies@.len() - i,
        {
            proof {
                assert(self@.policies[i as int] == self.policies@[i as int].deep_view());
            }
            let res = self.policies[i].validate();
            if res.is_err() {
                proof {
                    assert(!spec_policy_valid(self@.policies[i as int]));
                }
                return Err(Error::validation("policy validation failed"));
            }
            i = i + 1;
        }
        Ok(())
    }

    /// The enabled policies, sorted by priority, highest first, declaration
    /// order preserved among equals.
    pub fn enabled_policies(&self) -> (r: Vec<Policy>)
        ensures
            r.deep_view() == crate::engine::spec_sorted_enabled(self@.policies),
    {
        crate::engine::sorted_enabled_policies(&self.policies)
    }

    /// Find a policy by ID.
    pub fn get_policy(&self, id: &str) -> (r: Option<&Policy>)
        ensures
            match r {
                Some(p) => spec_find_policy(self@.policies, id@) == Some(p.deep_view()),
                None => spec_find_policy(self@.policies, id@) is None,
            },
    {
        let key = id.to_owned();
        let mut i: usize = 0;
        while i < self.policies.len()
            invariant
                i <= self.policies.len(),
                forall|j: int| 0 <= j < i as int ==> (#[trigger] self@.policies[j]).id != id@,
            decreases self.policies@.len() - i,
        {
            proof {
                assert(self@.policies[i as int] == self.policies@[i as int].deep_view());
            }
            if self.policies[i].id == key {
                proof {
                    lemma_find_at(self@.policies, id@, i as int);
                }
                return Some(&self.policies[i]);
            }
            i = i + 1;
        }
        proof {
            lemma_find_none(self@.policies, id@);
        }
        None
    }
}

/// The first policy with the given id, if any.
pub open spec fn spec_find_policy(ps: Seq<PolicyView>, id: Seq<char>) -> Option<PolicyView>
    decreases ps.len(),
{
    if ps.len() == 0 {
        None
    } else if ps[0].id == id {
        Some(ps[0])
    } else {
        spec_find_policy(ps.subrange(1, ps.len() as int), id)
    }
}

/// A scan that found the id at `i`, with a clean prefix, agrees with the
/// first-match search.
pub proof fn lemma_find_at(ps: Seq<PolicyView>, id: Seq<char>, i: int)
    requires
        0 <= i < ps.len(),
        ps[i].id == id,
        forall|j: int| 0 <= j < i ==> (#[trigger] ps[j]).id != id,
    ensures
        spec_find_policy(ps, id) == Some(ps[i]),
    decreases i,
{
    if i > 0 {
        let rest = ps.subrange(1, ps.len() as int);
        assert forall|j: int| 0 <= j < i - 1 implies (#[trigger] rest[j]).id != id by {
            assert(rest[j] == ps[j + 1]);
        }
        assert(rest[i - 1] == ps[i]);
        lemma_find_at(rest, id, i - 1);
    }
}

/// A scan that found nothing agrees with the first-match search.
pub proof fn lemma_find_none(ps: Seq<PolicyView>, id: Seq<char>)
    requires
        forall|j: int| 0 <= j < ps.len() ==> (#[trigger] ps[j]).id != id,
    ensures
        spec_find_policy(ps, id) is None,
    decreases ps.len(),
{
    if ps.len() > 0 {
        let rest = ps.subrange(1, ps.len() as int);
        assert forall|j: int| 0 <= j < rest.len() implies (#[trigger] rest[j]).id != id by {
            assert(rest[j] == ps[j + 1]);
        }
        lemma_find_none(rest, id);
    }
}

impl Default for PolicyDocument {
    fn default() -> (r: Self)
        ensures
            r@.api_version == spec_default_api_version(),
            r@.kind == spec_default_kind(),
            r@.policies == Seq::<PolicyView>::empty(),
    {
        PolicyDocument::new()
    }
}

impl Clone for PolicyDocument {
    /// A clone has the same mathematical value.
    fn clone(&self) -> (r: Self)
        ensures
            r@ == self@,
    {
        let mut ps: Vec<Policy> = Vec::new();
        let mut i: usize = 0;
        while i < self.policies.len()
            invariant
                i <= self.policies.len(),
                ps.deep_view() =~= self.policies.deep_view().subrange(0, i as int),
            decreases self.policies@.len() - i,
        {
            ps.push(self.policies[i].clone());
            proof {
                assert(ps.deep_view() =~= self.policies.deep_view().subrange(0, i + 1 as int));
            }
            i = i + 1;
        }
        let r = PolicyDocument {
            api_version: self.api_version.clone(),
            kind: self.kind.clone(),
            policies: ps,
        };
        proof {
            assert(r.policies.deep_view() =~= self.policies.deep_view());
        }
        r
    }
}

} // verus!

verus! {

/// Look up an object field under either of two key spellings.
pub open spec fn spec_get2(
    es: Seq<(Seq<char>, crate::json::NodeView)>,
    k1: Seq<char>,
    k2: Seq<char>,
) -> Option<crate::json::NodeView> {
    match crate::alist::alist_lookup(es, k1) {
        Some(n) => Some(n),
        None => crate::alist::alist_lookup(es, k2),
    }
}

/// An optional string field: absent stays absent, a string is taken, anything
/// else is an error.
pub open spec fn spec_opt_str(v: Option<crate::json::NodeView>) -> Result<Option<Seq<char>>, ()> {
    match v {
        None => Ok(None),
        Some(crate::json::NodeView::Str(s)) => Ok(Some(s)),
        Some(_) => Err(()),
    }
}

/// A required string field.
pub open spec fn spec_req_str(v: Option<crate::json::NodeView>) -> Result<Seq<char>, ()> {
    match v {
        Some(crate::json::NodeView::Str(s)) => Ok(s),
        _ => Err(()),
    }
}

/// A boolean field with a default.
pub open spec fn spec_bool_or(v: Option<crate::json::NodeView>, d: bool) -> Result<bool, ()> {
    match v {
        None => Ok(d),
        Some(crate::json::NodeView::Bool(b)) => Ok(b),
        Some(_) => Err(()),
    }
}

/// A 32-bit integer field with a default.
pub open spec fn spec_i32_or(v: Option<crate::json::NodeView>, d: int) -> Result<int, ()> {
    match v {
        None => Ok(d),
        Some(crate::json::NodeView::Int(n)) => if i32::MIN <= n <= i32::MAX {
            Ok(n)
        } else {
            Err(())
        },
        Some(_) => Err(()),
    }
}

/// A string field with a default.
pub open spec fn spec_str_or(v: Option<crate::json::NodeView>, d: Seq<char>) -> Result<
    Seq<char>,
    (),
> {
    match v {
        None => Ok(d),
        Some(crate::json::NodeView::Str(s)) => Ok(s),
        Some(_) => Err(()),
    }
}

/// A list of strings, defaulting to empty.
pub open spec fn spec_str_list(v: Option<crate::json::NodeView>) -> Result<Seq<Seq<char>>, ()> {
    match v {
        None => Ok(Seq::empty()),
        Some(crate::json::NodeView::Arr(items)) => spec_strs_of_nodes(items),
        Some(_) => Err(()),
    }
}

/// Every member of the list as a string.
pub open spec fn spec_strs_of_nodes(items: Seq<crate::json::NodeView>) -> Result<
    Seq<Seq<char>>,
    (),
>
    decreases items.len(),
{
    if items.len() == 0 {
        Ok(Seq::empty())
    } else {
        match items[0] {
            crate::json::NodeView::Str(s) => match spec_strs_of_nodes(
                items.subrange(1, items.len() as int),
            ) {
                Ok(rest) => Ok(seq![s] + rest),
                Err(u) => Err(u),
            },
            _ => Err(()),
        }
    }
}

/// A string-to-string mapping, defaulting to empty.
pub open spec fn spec_str_map(v: Option<crate::json::NodeView>) -> Result<
    Seq<(Seq<char>, Seq<char>)>,
    (),
> {
    match v {
        None => Ok(Seq::empty()),
        Some(crate::json::NodeView::Obj(es)) => spec_str_entries(es),
        Some(_) => Err(()),
    }
}

/// Every entry of the object as a string binding.
pub open spec fn spec_str_entries(es: Seq<(Seq<char>, crate::json::NodeView)>) -> Result<
    Seq<(Seq<char>, Seq<char>)>,
    (),
>
    decreases es.len(),
{
    if es.len() == 0 {
        Ok(Seq::empty())
    } else {
        match es[0].1 {
            crate::json::NodeView::Str(s) => match spec_str_entries(
                es.subrange(1, es.len() as int),
            ) {
                Ok(rest) => Ok(seq![(es[0].0, s)] + rest),
                Err(u) => Err(u),
            },
            _ => Err(()),
        }
    }
}

/// A condition value from a JSON node: scalars and arrays carry over
/// one-for-one, objects have no place in a condition literal.
pub open spec fn spec_value_of_node(n: crate::json::NodeView) -> Result<
    crate::value::ValueView,
    (),
>
    decreases n,
{
    match n {
        crate::json::NodeView::Null => Ok(crate::value::ValueView::Null),
        crate::json::NodeView::Bool(b) => Ok(crate::value::ValueView::Bool(b)),
        crate::json::NodeView::Int(i) => Ok(crate::value::ValueView::Int(i)),
        crate::json::NodeView::Flt(m) => Ok(crate::value::ValueView::Flt(m)),
        crate::json::NodeView::Str(s) => Ok(crate::value::ValueView::Str(s)),
        crate::json::NodeView::Arr(items) => match spec_values_of_nodes(items) {
            Ok(vs) => Ok(crate::value::ValueView::Arr(vs)),
            Err(u) => Err(u),
        },
        crate::json::NodeView::Obj(_) => Err(()),
    }
}

/// Condition values from a list of nodes.
pub open spec fn spec_values_of_nodes(items: Seq<crate::json::NodeView>) -> Result<
    Seq<crate::value::ValueView>,
    (),
>
    decreases items,
{
    if items.len() == 0 {
        Ok(Seq::empty())
    } else {
        proof {
            assert(decreases_to!(items => items[0]));
            assert(decreases_to!(items => items.subrange(1, items.len() as int)));
        }
        match spec_value_of_node(items[0]) {
            Ok(v) => match spec_values_of_nodes(items.subrange(1, items.len() as int)) {
                Ok(rest) => Ok(seq![v] + rest),
                Err(u) => Err(u),
            },
            Err(u) => Err(u),
        }
    }
}

/// The operator a wire name denotes, accepted in any ASCII case.
pub open spec fn spec_operator_of_name(s: Seq<char>) -> Result<
    crate::condition::ConditionOperator,
    (),
> {
    if crate::strutil::spec_ci_eq(s, "equals"@) {
        Ok(crate::condition::ConditionOperator::Equals)
    } else if crate::strutil::spec_ci_eq(s, "not_equals"@) {
        Ok(crate::condition::ConditionOperator::NotEquals)
    } else if crate::strutil::spec_ci_eq(s, "greater_than"@) {
        Ok(crate::condition::ConditionOperator::GreaterThan)
    } else if crate::strutil::spec_ci_eq(s, "greater_than_or_equals"@) {
        Ok(crate::condition::ConditionOperator::GreaterThanOrEquals)
    } else if crate::strutil::spec_ci_eq(s, "less_than"@) {
        Ok(crate::condition::ConditionOperator::LessThan)
    } else if crate::strutil::spec_ci_eq(s, "less_than_or_equals"@) {
        Ok(crate::condition::ConditionOperator::LessThanOrEquals)
    } else if crate::strutil::spec_ci_eq(s, "in"@) {
        Ok(crate::condition::ConditionOperator::In)
    } else if crate::strutil::spec_ci_eq(s, "not_in"@) {
        Ok(crate::condition::ConditionOperator::NotIn)
    } else if crate::strutil::spec_ci_eq(s, "contains"@) {
        Ok(crate::condition::ConditionOperator::Contains)
    } else if crate::strutil::spec_ci_eq(s, "starts_with"@) {
        Ok(crate::condition::ConditionOperator::StartsWith)
    } else if crate::strutil::spec_ci_eq(s, "ends_with"@) {
        Ok(crate::condition::ConditionOperator::EndsWith)
    } else if crate::strutil::spec_ci_eq(s, "matches"@) {
        Ok(crate::condition::ConditionOperator::Matches)
    } else if crate::strutil::spec_ci_eq(s, "exists"@) {
        Ok(crate::condition::ConditionOperator::Exists)
    } else if crate::strutil::spec_ci_eq(s, "not_exists"@) {
        Ok(crate::condition::ConditionOperator::NotExists)
    } else if crate::strutil::spec_ci_eq(s, "and"@) {
        Ok(crate::condition::ConditionOperator::And)
    } else if crate::strutil::spec_ci_eq(s, "or"@) {
        Ok(crate::condition::ConditionOperator::Or)
    } else if crate::strutil::spec_ci_eq(s, "not"@) {
        Ok(crate::condition::ConditionOperator::Not)
    } else {
        Err(())
    }
}

/// The decision kind a wire name denotes, accepted in any ASCII case.
pub open spec fn spec_decision_of_name(s: Seq<char>) -> Result<
    crate::decision::DecisionType,
    (),
> {
    if crate::strutil::spec_ci_eq(s, "allow"@) {
        Ok(crate::decision::DecisionType::Allow)
    } else if crate::strutil::spec_ci_eq(s, "deny"@) {
        Ok(crate::decision::DecisionType::Deny)
    } else if crate::strutil::spec_ci_eq(s, "warn"@) {
        Ok(crate::decision::DecisionType::Warn)
    } else if crate::strutil::spec_ci_eq(s, "modify"@) {
        Ok(crate::decision::DecisionType::Modify)
    } else {
        Err(())
    }
}

/// The action type a wire name denotes, accepted in any ASCII case; the
/// rate-limit type is accepted both with and without its underscore.
pub open spec fn spec_action_type_of_name(s: Seq<char>) -> Result<crate::action::ActionType, ()> {
    if crate::strutil::spec_ci_eq(s, "allow"@) {
        Ok(crate::action::ActionType::Allow)
    } else if crate::strutil::spec_ci_eq(s, "deny"@) {
        Ok(crate::action::ActionType::Deny)
    } else if crate::strutil::spec_ci_eq(s, "warn"@) {
        Ok(crate::action::ActionType::Warn)
    } else if crate::strutil::spec_ci_eq(s, "modify"@) {
        Ok(crate::action::ActionType::Modify)
    } else if crate::strutil::spec_ci_eq(s, "log"@) {
        Ok(crate::action::ActionType::Log)
    } else if crate::strutil::spec_ci_eq(s, "rate_limit"@) || crate::strutil::spec_ci_eq(
        s,
        "ratelimit"@,
    ) {
        Ok(crate::action::ActionType::RateLimit)
    } else {
        Err(())
    }
}

/// The modification kind a wire name denotes, accepted in any ASCII case.
pub open spec fn spec_mod_type_of_name(s: Seq<char>) -> Result<
    crate::action::ModificationType,
    (),
> {
    if crate::strutil::spec_ci_eq(s, "set"@) {
        Ok(crate::action::ModificationType::SetField)
    } else if crate::strutil::spec_ci_eq(s, "remove"@) {
        Ok(crate::action::ModificationType::Remove)
    } else if crate::strutil::spec_ci_eq(s, "append"@) {
        Ok(crate::action::ModificationType::Append)
    } else if crate::strutil::spec_ci_eq(s, "mask"@) {
        Ok(crate::action::ModificationType::Mask)
    } else if crate::strutil::spec_ci_eq(s, "truncate"@) {
        Ok(crate::action::ModificationType::Truncate)
    } else {
        Err(())
    }
}

/// A modification from its wire object: a kind under `type`, a `field`, and
/// an optional `value`.
pub open spec fn spec_mod_of_node(n: crate::json::NodeView) -> Result<crate::action::ModView, ()> {
    match n {
        crate::json::NodeView::Obj(es) => {
            let tr = spec_req_str(crate::alist::alist_lookup(es, "type"@));
            match tr {
                Err(u) => Err(u),
                Ok(tname) => match spec_mod_type_of_name(tname) {
                    Err(u) => Err(u),
                    Ok(mt) => match spec_req_str(crate::alist::alist_lookup(es, "field"@)) {
                        Err(u) => Err(u),
                        Ok(field) => match crate::alist::alist_lookup(es, "value"@) {
                            None => Ok(
                                crate::action::ModView {
                                    modification_type: mt,
                                    field,
                                    value: None,
                                },
                            ),
                            Some(vn) => match spec_value_of_node(vn) {
                                Ok(v) => Ok(
                                    crate::action::ModView {
                                        modification_type: mt,
                                        field,
                                        value: Some(v),
                                    },
                                ),
                                Err(u) => Err(u),
                            },
                        },
                    },
                },
            }
        },
        _ => Err(()),
    }
}

/// Modifications from a list of wire objects.
pub open spec fn spec_mods_of_nodes(items: Seq<crate::json::NodeView>) -> Result<
    Seq<crate::action::ModView>,
    (),
>
    decreases items.len(),
{
    if items.len() == 0 {
        Ok(Seq::empty())
    } else {
        match spec_mod_of_node(items[0]) {
            Ok(m) => match spec_mods_of_nodes(items.subrange(1, items.len() as int)) {
                Ok(rest) => Ok(seq![m] + rest),
                Err(u) => Err(u),
            },
            Err(u) => Err(u),
        }
    }
}

/// A metadata mapping (string to condition value) from a wire object.
pub open spec fn spec_value_map(v: Option<crate::json::NodeView>) -> Result<
    Seq<(Seq<char>, crate::value::ValueView)>,
    (),
> {
    match v {
        None => Ok(Seq::empty()),
        Some(crate::json::NodeView::Obj(es)) => spec_value_entries(es),
        Some(_) => Err(()),
    }
}

/// Every entry of the object as a condition-value binding.
pub open spec fn spec_value_entries(es: Seq<(Seq<char>, crate::json::NodeView)>) -> Result<
    Seq<(Seq<char>, crate::value::ValueView)>,
    (),
>
    decreases es.len(),
{
    if es.len() == 0 {
        Ok(Seq::empty())
    } else {
        match spec_value_of_node(es[0].1) {
            Ok(v) => match spec_value_entries(es.subrange(1, es.len() as int)) {
                Ok(rest) => Ok(seq![(es[0].0, v)] + rest),
                Err(u) => Err(u),
            },
            Err(u) => Err(u),
        }
    }
}

/// An action from its wire object.
pub open spec fn spec_action_of_node(n: crate::json::NodeView) -> Result<
    crate::action::ActionView,
    (),
> {
    match n {
        crate::json::NodeView::Obj(es) => {
            match spec_req_str(crate::alist::alist_lookup(es, "type"@)) {
                Err(u) => Err(u),
                Ok(tname) => match spec_action_type_of_name(tname) {
                    Err(u) => Err(u),
                    Ok(at) => {
                        let dres = match crate::alist::alist_lookup(es, "decision"@) {
                            None => Ok(crate::decision::DecisionType::Allow),
                            Some(crate::json::NodeView::Str(dn)) => spec_decision_of_name(dn),
                            Some(_) => Err(()),
                        };
                        match dres {
                            Err(u) => Err(u),
                            Ok(decision) => match spec_opt_str(
                                crate::alist::alist_lookup(es, "reason"@),
                            ) {
                                Err(u) => Err(u),
                                Ok(reason) => {
                                    let mres = match crate::alist::alist_lookup(
                                        es,
                                        "modifications"@,
                                    ) {
                                        None => Ok(Seq::empty()),
                                        Some(crate::json::NodeView::Arr(items)) =>
                                            spec_mods_of_nodes(items),
                                        Some(_) => Err(()),
                                    };
                                    match mres {
                                        Err(u) => Err(u),
                                        Ok(mods) => match spec_value_map(
                                            crate::alist::alist_lookup(es, "metadata"@),
                                        ) {
                                            Err(u) => Err(u),
                                            Ok(meta) => Ok(
                                                crate::action::ActionView {
                                                    action_type: at,
                                                    decision,
                                                    reason,
                                                    modifications: mods,
                                                    metadata: meta,
                                                },
                                            ),
                                        },
                                    }
                                },
                            },
                        }
                    },
                },
            }
        },
        _ => Err(()),
    }
}

/// A binding found in an object is below the object in the well-founded
/// order.
pub proof fn lemma_lookup_decreases(es: Seq<(Seq<char>, crate::json::NodeView)>, k: Seq<char>)
    ensures
        crate::alist::alist_lookup(es, k) matches Some(v) ==> decreases_to!(es => v),
    decreases es.len(),
{
    if es.len() > 0 {
        if es[0].0 == k {
            assert(decreases_to!(es => es[0]));
            assert(decreases_to!(es[0] => es[0].1));
        } else {
            let rest = es.subrange(1, es.len() as int);
            lemma_lookup_decreases(rest, k);
            assert(decreases_to!(es => rest));
        }
    }
}

/// A condition from its wire object, recursively.
pub open spec fn spec_condition_of_node(n: crate::json::NodeView) -> Result<
    crate::condition::CondView,
    (),
>
    decreases n,
{
    match n {
        crate::json::NodeView::Obj(es) => {
            match spec_req_str(crate::alist::alist_lookup(es, "operator"@)) {
                Err(u) => Err(u),
                Ok(opname) => match spec_operator_of_name(opname) {
                    Err(u) => Err(u),
                    Ok(op) => match spec_opt_str(crate::alist::alist_lookup(es, "field"@)) {
                        Err(u) => Err(u),
                        Ok(field) => {
                            let vres = match crate::alist::alist_lookup(es, "value"@) {
                                None => Ok(None),
                                Some(vn) => match spec_value_of_node(vn) {
                                    Ok(v) => Ok(Some(v)),
                                    Err(u) => Err(u),
                                },
                            };
                            match vres {
                                Err(u) => Err(u),
                                Ok(value) => {
                                    let cres = match crate::alist::alist_lookup(
                                        es,
                                        "conditions"@,
                                    ) {
                                        None => Ok(Seq::empty()),
                                        Some(crate::json::NodeView::Arr(items)) => {
                                            proof {
                                                assert(decreases_to!(n => es));
                                                lemma_lookup_decreases(es, "conditions"@);
                                                assert(decreases_to!(
                                                    crate::json::NodeView::Arr(items) => items
                                                ));
                                            }
                                            spec_conditions_of_nodes(items)
                                        },
                                        Some(_) => Err(()),
                                    };
                                    match cres {
                                        Err(u) => Err(u),
                                        Ok(children) => Ok(
                                            crate::condition::CondView {
                                                operator: op,
                                                field,
                                                value,
                                                conditions: children,
                                            },
                                        ),
                                    }
                                },
                            }
                        },
                    },
                },
            }
        },
        _ => Err(()),
    }
}

/// Conditions from a list of wire objects.
pub open spec fn spec_conditions_of_nodes(items: Seq<crate::json::NodeView>) -> Result<
    Seq<crate::condition::CondView>,
    (),
>
    decreases items,
{
    if items.len() == 0 {
        Ok(Seq::empty())
    } else {
        proof {
            assert(decreases_to!(items => items[0]));
            assert(decreases_to!(items => items.subrange(1, items.len() as int)));
        }
        match spec_condition_of_node(items[0]) {
            Ok(c) => match spec_conditions_of_nodes(items.subrange(1, items.len() as int)) {
                Ok(rest) => Ok(seq![c] + rest),
                Err(u) => Err(u),
            },
            Err(u) => Err(u),
        }
    }
}

} // verus!

verus! {

/// Policy metadata from its wire object: the name is required, the version
/// defaults, timestamps default to empty text, tags and labels to empty.
pub open spec fn spec_metadata_of_node(n: crate::json::NodeView) -> Result<
    crate::policy::MetadataView,
    (),
> {
    match n {
        crate::json::NodeView::Obj(es) => {
            match spec_req_str(crate::alist::alist_lookup(es, "name"@)) {
                Err(u) => Err(u),
                Ok(name) => match spec_opt_str(crate::alist::alist_lookup(es, "description"@)) {
                    Err(u) => Err(u),
                    Ok(description) => match spec_str_or(
                        crate::alist::alist_lookup(es, "version"@),
                        "1.0.0"@,
                    ) {
                        Err(u) => Err(u),
                        Ok(version) => match spec_opt_str(
                            crate::alist::alist_lookup(es, "namespace"@),
                        ) {
                            Err(u) => Err(u),
                            Ok(namespace) => match spec_str_list(
                                crate::alist::alist_lookup(es, "tags"@),
                            ) {
                                Err(u) => Err(u),
                                Ok(tags) => match spec_opt_str(
                                    spec_get2(es, "createdBy"@, "created_by"@),
                                ) {
                                    Err(u) => Err(u),
                                    Ok(created_by) => match spec_str_or(
                                        spec_get2(es, "createdAt"@, "created_at"@),
                                        Seq::empty(),
                                    ) {
                                        Err(u) => Err(u),
                                        Ok(created_at) => match spec_str_or(
                                            spec_get2(es, "updatedAt"@, "updated_at"@),
                                            Seq::empty(),
                                        ) {
                                            Err(u) => Err(u),
                                            Ok(updated_at) => match spec_str_map(
                                                crate::alist::alist_lookup(es, "labels"@),
                                            ) {
                                                Err(u) => Err(u),
                                                Ok(labels) => Ok(
                                                    crate::policy::MetadataView {
                                                        name,
                                                        description,
                                                        version,
                                                        namespace,
                                                        tags,
                                                        created_by,
                                                        created_at,
                                                        updated_at,
                                                        labels,
                                                    },
                                                ),
                                            },
                                        },
                                    },
                                },
                            },
                        },
                    },
                },
            }
        },
        _ => Err(()),
    }
}

/// A rule from its wire object.
pub open spec fn spec_rule_of_node(n: crate::json::NodeView) -> Result<RuleView, ()> {
    match n {
        crate::json::NodeView::Obj(es) => {
            match spec_req_str(crate::alist::alist_lookup(es, "id"@)) {
                Err(u) => Err(u),
                Ok(id) => match spec_req_str(crate::alist::alist_lookup(es, "name"@)) {
                    Err(u) => Err(u),
                    Ok(name) => match spec_opt_str(
                        crate::alist::alist_lookup(es, "description"@),
                    ) {
                        Err(u) => Err(u),
                        Ok(description) => match crate::alist::alist_lookup(es, "condition"@) {
                            None => Err(()),
                            Some(cn) => match spec_condition_of_node(cn) {
                                Err(u) => Err(u),
                                Ok(condition) => match crate::alist::alist_lookup(es, "action"@) {
                                    None => Err(()),
                                    Some(an) => match spec_action_of_node(an) {
                                        Err(u) => Err(u),
                                        Ok(action) => match spec_bool_or(
                                            crate::alist::alist_lookup(es, "enabled"@),
                                            true,
                                        ) {
                                            Err(u) => Err(u),
                                            Ok(enabled) => match spec_i32_or(
                                                crate::alist::alist_lookup(es, "priority"@),
                                                0,
                                            ) {
                                                Err(u) => Err(u),
                                                Ok(priority) => Ok(
                                                    RuleView {
                                                        id,
                                                        name,
                                                        description,
                                                        condition,
                                                        action,
                                                        enabled,
                                                        priority,
                                                    },
                                                ),
                                            },
                                        },
                                    },
                                },
                            },
                        },
                    },
                },
            }
        },
        _ => Err(()),
    }
}

/// Rules from a list of wire objects.
pub open spec fn spec_rules_of_nodes(items: Seq<crate::json::NodeView>) -> Result<
    Seq<RuleView>,
    (),
>
    decreases items.len(),
{
    if items.len() == 0 {
        Ok(Seq::empty())
    } else {
        match spec_rule_of_node(items[0]) {
            Ok(r) => match spec_rules_of_nodes(items.subrange(1, items.len() as int)) {
                Ok(rest) => Ok(seq![r] + rest),
                Err(u) => Err(u),
            },
            Err(u) => Err(u),
        }
    }
}

/// A policy from its wire object: id, metadata and rules are required, the
/// enable flag defaults to true and the priority to zero.
pub open spec fn spec_policy_of_node(n: crate::json::NodeView) -> Result<PolicyView, ()> {
    match n {
        crate::json::NodeView::Obj(es) => {
            match spec_req_str(crate::alist::alist_lookup(es, "id"@)) {
                Err(u) => Err(u),
                Ok(id) => match crate::alist::alist_lookup(es, "metadata"@) {
                    None => Err(()),
                    Some(mn) => match spec_metadata_of_node(mn) {
                        Err(u) => Err(u),
                        Ok(metadata) => {
                            let rres = match crate::alist::alist_lookup(es, "rules"@) {
                                Some(crate::json::NodeView::Arr(items)) => spec_rules_of_nodes(
                                    items,
                                ),
                                _ => Err(()),
                            };
                            match rres {
                                Err(u) => Err(u),
                                Ok(rules) => match spec_bool_or(
                                    crate::alist::alist_lookup(es, "enabled"@),
                                    true,
                                ) {
                                    Err(u) => Err(u),
                                    Ok(enabled) => match spec_i32_or(
                                        crate::alist::alist_lookup(es, "priority"@),
                                        0,
                                    ) {
                                        Err(u) => Err(u),
                                        Ok(priority) => Ok(
                                            PolicyView { id, metadata, rules, enabled, priority },
                                        ),
                                    },
                                },
                            }
                        },
                    },
                },
            }
        },
        _ => Err(()),
    }
}

/// Policies from a list of wire objects.
pub open spec fn spec_policies_of_nodes(items: Seq<crate::json::NodeView>) -> Result<
    Seq<PolicyView>,
    (),
>
    decreases items.len(),
{
    if items.len() == 0 {
        Ok(Seq::empty())
    } else {
        match spec_policy_of_node(items[0]) {
            Ok(p) => match spec_policies_of_nodes(items.subrange(1, items.len() as int)) {
                Ok(rest) => Ok(seq![p] + rest),
                Err(u) => Err(u),
            },
            Err(u) => Err(u),
        }
    }
}

/// A whole document from its wire object: version and kind default, the policy
/// list defaults to empty; both camelCase and snake_case are accepted for the
/// version key.
pub open spec fn spec_document_of_node(n: crate::json::NodeView) -> Result<DocumentView, ()> {
    match n {
        crate::json::NodeView::Obj(es) => {
            match spec_str_or(
                spec_get2(es, "apiVersion"@, "api_version"@),
                spec_default_api_version(),
            ) {
                Err(u) => Err(u),
                Ok(api_version) => match spec_str_or(
                    crate::alist::alist_lookup(es, "kind"@),
                    spec_default_kind(),
                ) {
                    Err(u) => Err(u),
                    Ok(kind) => {
                        let pres = match crate::alist::alist_lookup(es, "policies"@) {
                            None => Ok(Seq::empty()),
                            Some(crate::json::NodeView::Arr(items)) => spec_policies_of_nodes(
                                items,
                            ),
                            Some(_) => Err(()),
                        };
                        match pres {
                            Err(u) => Err(u),
                            Ok(policies) => Ok(DocumentView { api_version, kind, policies }),
                        }
                    },
                },
            }
        },
        _ => Err(()),
    }
}

/// What parsing a document from text yields: the parsed tree mapped onto the
/// model.
pub open spec fn spec_document_of_text(s: Seq<char>) -> Result<DocumentView, ()> {
    match crate::json::spec_parse_json(s) {
        Err(u) => Err(u),
        Ok(n) => spec_document_of_node(n),
    }
}

} // verus!

verus! {

/// The view of an optional borrowed node.
pub open spec fn view_opt(o: Option<&JsonNode>) -> Option<crate::json::NodeView> {
    match o {
        Some(n) => Some(n.deep_view()),
        None => None,
    }
}

/// Look up an object field by key.
fn obj_get<'a>(entries: &'a Vec<(String, JsonNode)>, k: &str) -> (r: Option<&'a JsonNode>)
    ensures
        view_opt(r) == crate::alist::alist_lookup(crate::json::entry_views(entries@), k@),
        r matches Some(v) ==> exists|j: int|
            0 <= j < entries@.len() && *v == (#[trigger] entries@[j]).1,
{
    let ghost s = crate::json::entry_views(entries@);
    proof {
        crate::json::lemma_entry_views(entries@);
    }
    let key = k.to_owned();
    let mut i: usize = 0;
    while i < entries.len()
        invariant
            i <= entries@.len(),
            s == crate::json::entry_views(entries@),
            s.len() == entries@.len(),
            forall|j: int|
                0 <= j < entries@.len() ==> #[trigger] s[j] == (
                    entries@[j].0@,
                    entries@[j].1.deep_view(),
                ),
            key@ == k@,
            forall|j: int| 0 <= j < i as int ==> (#[trigger] s[j]).0 != k@,
        decreases entries@.len() - i,
    {
        if entries[i].0 == key {
            proof {
                crate::alist::lemma_lookup_skip(s, k@, i as int);
                assert(s.subrange(i as int, s.len() as int)[0] == s[i as int]);
                assert(entries@[i as int].1 == entries@[i as int].1);
            }
            return Some(&entries[i].1);
        }
        i = i + 1;
    }
    proof {
        crate::alist::lemma_lookup_skip(s, k@, s.len() as int);
        assert(s.subrange(s.len() as int, s.len() as int) =~= Seq::<
            (Seq<char>, crate::json::NodeView),
        >::empty());
    }
    None
}

/// Look up an object field under either of two key spellings.
fn obj_get_2<'a>(entries: &'a Vec<(String, JsonNode)>, k1: &str, k2: &str) -> (r: Option<
    &'a JsonNode,
>)
    ensures
        view_opt(r) == spec_get2(crate::json::entry_views(entries@), k1@, k2@),
{
    match obj_get(entries, k1) {
        Some(n) => Some(n),
        None => obj_get(entries, k2),
    }
}

/// A required string field.
fn req_str(o: Option<&JsonNode>) -> (r: Result<String, Error>)
    ensures
        match spec_req_str(view_opt(o)) {
            Ok(s) => r matches Ok(rs) && rs@ == s,
            Err(_) => r matches Err(e) && e is Parse,
        },
{
    match o {
        Some(JsonNode::Str(s)) => Ok(s.clone()),
        _ => Err(Error::parse("expected a string field")),
    }
}

/// An optional string field.
fn opt_str(o: Option<&JsonNode>) -> (r: Result<Option<String>, Error>)
    ensures
        match spec_opt_str(view_opt(o)) {
            Ok(s) => r matches Ok(rs) && (match (rs, s) {
                (Some(a), Some(b)) => a@ == b,
                (None, None) => true,
                _ => false,
            }),
            Err(_) => r matches Err(e) && e is Parse,
        },
{
    match o {
        None => Ok(None),
        Some(JsonNode::Str(s)) => Ok(Some(s.clone())),
        Some(_) => Err(Error::parse("expected a string field")),
    }
}

/// A string field with a default.
fn str_or(o: Option<&JsonNode>, d: &str) -> (r: Result<String, Error>)
    ensures
        match spec_str_or(view_opt(o), d@) {
            Ok(s) => r matches Ok(rs) && rs@ == s,
            Err(_) => r matches Err(e) && e is Parse,
        },
{
    match o {
        None => Ok(d.to_owned()),
        Some(JsonNode::Str(s)) => Ok(s.clone()),
        Some(_) => Err(Error::parse("expected a string field")),
    }
}

/// A boolean field with a default.
fn bool_or(o: Option<&JsonNode>, d: bool) -> (r: Result<bool, Error>)
    ensures
        match spec_bool_or(view_opt(o), d) {
            Ok(b) => r == Ok::<bool, Error>(b),
            Err(_) => r matches Err(e) && e is Parse,
        },
{
    match o {
        None => Ok(d),
        Some(JsonNode::Bool(b)) => Ok(*b),
        Some(_) => Err(Error::parse("expected a boolean field")),
    }
}

/// A 32-bit integer field with a default.
fn i32_or(o: Option<&JsonNode>, d: i32) -> (r: Result<i32, Error>)
    ensures
        match spec_i32_or(view_opt(o), d as int) {
            Ok(n) => r matches Ok(rn) && rn as int == n,
            Err(_) => r matches Err(e) && e is Parse,
        },
{
    match o {
        None => Ok(d),
        Some(JsonNode::Int(n)) => {
            if i32::MIN as i64 <= *n && *n <= i32::MAX as i64 {
                Ok(*n as i32)
            } else {
                Err(Error::parse("number out of range"))
            }
        },
        Some(_) => Err(Error::parse("expected a whole number field")),
    }
}

/// A list of strings, defaulting to empty.
fn str_list(o: Option<&JsonNode>) -> (r: Result<Vec<String>, Error>)
    ensures
        match spec_str_list(view_opt(o)) {
            Ok(ss) => r matches Ok(rs) && rs.deep_view() == ss,
            Err(_) => r matches Err(e) && e is Parse,
        },
{
    match o {
        None => {
            let out: Vec<String> = Vec::new();
            proof {
                assert(out.deep_view() =~= Seq::<Seq<char>>::empty());
            }
            Ok(out)
        },
        Some(JsonNode::Arr(items)) => {
            let mut out: Vec<String> = Vec::new();
            let mut i: usize = 0;
            let ghost nviews = crate::json::node_views(items@);
            proof {
                crate::json::lemma_node_views(items@);
                assert(out.deep_view() =~= Seq::<Seq<char>>::empty());
                assert(nviews.subrange(0, nviews.len() as int) =~= nviews);
            }
            while i < items.len()
                invariant
                    i <= items@.len(),
                    nviews == crate::json::node_views(items@),
                    nviews.len() == items@.len(),
                    forall|j: int|
                        0 <= j < items@.len() ==> #[trigger] nviews[j] == items@[j].deep_view(),
                    spec_strs_of_nodes(nviews) == (match spec_strs_of_nodes(
                        nviews.subrange(i as int, nviews.len() as int),
                    ) {
                        Ok(rest) => Ok::<Seq<Seq<char>>, ()>(out.deep_view() + rest),
                        Err(u) => Err::<Seq<Seq<char>>, ()>(u),
                    }),
                decreases items@.len() - i,
            {
                let ghost suffix = nviews.subrange(i as int, nviews.len() as int);
                proof {
                    assert(suffix[0] == nviews[i as int]);
                    assert(suffix.subrange(1, suffix.len() as int) =~= nviews.subrange(
                        i + 1 as int,
                        nviews.len() as int,
                    ));
                }
                match &items[i] {
                    JsonNode::Str(s) => {
                        let ghost before = out.deep_view();
                        out.push(s.clone());
                        proof {
                            assert(out.deep_view() =~~= before.push(s@));
                            match spec_strs_of_nodes(
                                nviews.subrange(i + 1 as int, nviews.len() as int),
                            ) {
                                Ok(rest) => {
                                    assert(before + (seq![s@] + rest) =~= before.push(s@) + rest);
                                },
                                Err(_) => {},
                            }
                        }
                    },
                    _ => {
                        return Err(Error::parse("expected a string in the list"));
                    },
                }
                i = i + 1;
            }
            proof {
                assert(nviews.subrange(nviews.len() as int, nviews.len() as int) =~= Seq::<
                    crate::json::NodeView,
                >::empty());
                match spec_strs_of_nodes(nviews) {
                    Ok(ss) => {
                        assert(out.deep_view() + Seq::<Seq<char>>::empty() =~= out.deep_view());
                    },
                    Err(_) => {},
                }
            }
            Ok(out)
        },
        Some(_) => Err(Error::parse("expected a list of strings")),
    }
}

/// A string-to-string mapping, defaulting to empty.
fn str_map(o: Option<&JsonNode>) -> (r: Result<Vec<(String, String)>, Error>)
    ensures
        match spec_str_map(view_opt(o)) {
            Ok(m) => r matches Ok(rm) && rm.deep_view() == m,
            Err(_) => r matches Err(e) && e is Parse,
        },
{
    match o {
        None => {
            let out: Vec<(String, String)> = Vec::new();
            proof {
                assert(out.deep_view() =~= Seq::<(Seq<char>, Seq<char>)>::empty());
            }
            Ok(out)
        },
        Some(JsonNode::Obj(entries)) => {
            let mut out: Vec<(String, String)> = Vec::new();
            let mut i: usize = 0;
            let ghost eviews = crate::json::entry_views(entries@);
            proof {
                crate::json::lemma_entry_views(entries@);
                assert(out.deep_view() =~= Seq::<(Seq<char>, Seq<char>)>::empty());
                assert(eviews.subrange(0, eviews.len() as int) =~= eviews);
            }
            while i < entries.len()
                invariant
                    i <= entries@.len(),
                    eviews == crate::json::entry_views(entries@),
                    eviews.len() == entries@.len(),
                    forall|j: int|
                        0 <= j < entries@.len() ==> #[trigger] eviews[j] == (
                            entries@[j].0@,
                            entries@[j].1.deep_view(),
                        ),
                    spec_str_entries(eviews) == (match spec_str_entries(
                        eviews.subrange(i as int, eviews.len() as int),
                    ) {
                        Ok(rest) => Ok::<Seq<(Seq<char>, Seq<char>)>, ()>(out.deep_view() + rest),
                        Err(u) => Err::<Seq<(Seq<char>, Seq<char>)>, ()>(u),
                    }),
                decreases entries@.len() - i,
            {
                let ghost suffix = eviews.subrange(i as int, eviews.len() as int);
                proof {
                    assert(suffix[0] == eviews[i as int]);
                    assert(suffix.subrange(1, suffix.len() as int) =~= eviews.subrange(
                        i + 1 as int,
                        eviews.len() as int,
                    ));
                }
                match &entries[i].1 {
                    JsonNode::Str(s) => {
                        let ghost before = out.deep_view();
                        let pair = (entries[i].0.clone(), s.clone());
                        out.push(pair);
                        proof {
                            assert(out.deep_view() =~~= before.push((entries@[i as int].0@, s@)));
                            match spec_str_entries(
                                eviews.subrange(i + 1 as int, eviews.len() as int),
                            ) {
                                Ok(rest) => {
                                    assert(before + (seq![(entries@[i as int].0@, s@)] + rest)
                                        =~= before.push((entries@[i as int].0@, s@)) + rest);
                                },
                                Err(_) => {},
                            }
                        }
                    },
                    _ => {
                        return Err(Error::parse("expected a string value"));
                    },
                }
                i = i + 1;
            }
            proof {
                assert(eviews.subrange(eviews.len() as int, eviews.len() as int) =~= Seq::<
                    (Seq<char>, crate::json::NodeView),
                >::empty());
                match spec_str_entries(eviews) {
                    Ok(m) => {
                        assert(out.deep_view() + Seq::<(Seq<char>, Seq<char>)>::empty()
                            =~= out.deep_view());
                    },
                    Err(_) => {},
                }
            }
            Ok(out)
        },
        Some(_) => Err(Error::parse("expected a mapping of strings")),
    }
}

} // verus!

verus! {



/// A condition value from a JSON node.
fn value_of_node(n: &JsonNode) -> (r: Result<crate::value::ConditionValue, Error>)
    ensures
        match spec_value_of_node(n.deep_view()) {
            Ok(v) => r matches Ok(rv) && rv@ == v,
            Err(_) => r matches Err(e) && e is Parse,
        },
    decreases n,
{
    match n {
        JsonNode::Null => Ok(crate::value::ConditionValue::Null),
        JsonNode::Bool(b) => Ok(crate::value::ConditionValue::Boolean(*b)),
        JsonNode::Int(i) => Ok(crate::value::ConditionValue::Integer(*i)),
        JsonNode::Flt(m) => Ok(crate::value::ConditionValue::Float(*m)),
        JsonNode::Str(s) => Ok(crate::value::ConditionValue::String(s.clone())),
        JsonNode::Obj(_) => Err(Error::parse("an object cannot stand as a condition value")),
        JsonNode::Arr(items) => {
            let mut out: Vec<crate::value::ConditionValue> = Vec::new();
            let mut i: usize = 0;
            let ghost nviews = crate::json::node_views(items@);
            proof {
                crate::json::lemma_node_views(items@);
                assert(crate::value::value_views(out@) =~= Seq::<crate::value::ValueView>::empty());
                assert(nviews.subrange(0, nviews.len() as int) =~= nviews);
            }
            while i < items.len()
                invariant
                    i <= items@.len(),
                    nviews == crate::json::node_views(items@),
                    nviews.len() == items@.len(),
                    forall|j: int|
                        0 <= j < items@.len() ==> #[trigger] nviews[j] == items@[j].deep_view(),
                    spec_values_of_nodes(nviews) == (match spec_values_of_nodes(
                        nviews.subrange(i as int, nviews.len() as int),
                    ) {
                        Ok(rest) => Ok::<Seq<crate::value::ValueView>, ()>(
                            crate::value::value_views(out@) + rest,
                        ),
                        Err(u) => Err::<Seq<crate::value::ValueView>, ()>(u),
                    }),
                decreases items@.len() - i,
            {
                let ghost suffix = nviews.subrange(i as int, nviews.len() as int);
                proof {
                    assert(suffix[0] == nviews[i as int]);
                    assert(suffix.subrange(1, suffix.len() as int) =~= nviews.subrange(
                        i + 1 as int,
                        nviews.len() as int,
                    ));
                    assert(decreases_to!(*items => items@));
                    assert(decreases_to!(items@ => items@[i as int]));
                }
                let v = match value_of_node(&items[i]) {
                    Ok(v) => v,
                    Err(e) => {
                        return Err(e);
                    },
                };
                let ghost oldv = out@;
                let ghost before = crate::value::value_views(out@);
                out.push(v);
                proof {
                    crate::value::lemma_value_views(out@);
                    crate::value::lemma_value_views(oldv);
                    assert(out@ =~= oldv.push(v));
                    assert(crate::value::value_views(out@) =~= before.push(v@));
                    match spec_values_of_nodes(nviews.subrange(i + 1 as int, nviews.len() as int)) {
                        Ok(rest) => {
                            assert(before + (seq![v@] + rest) =~= before.push(v@) + rest);
                        },
                        Err(_) => {},
                    }
                }
                i = i + 1;
            }
            proof {
                assert(nviews.subrange(nviews.len() as int, nviews.len() as int) =~= Seq::<
                    crate::json::NodeView,
                >::empty());
                match spec_values_of_nodes(nviews) {
                    Ok(vs) => {
                        assert(crate::value::value_views(out@) + Seq::<
                            crate::value::ValueView,
                        >::empty() =~= crate::value::value_views(out@));
                    },
                    Err(_) => {},
                }
            }
            Ok(crate::value::ConditionValue::Array(out))
        },
    }
}

/// The operator a wire name denotes.
fn operator_of_name(s: &String) -> (r: Result<crate::condition::ConditionOperator, Error>)
    ensures
        match spec_operator_of_name(s@) {
            Ok(op) => r == Ok::<crate::condition::ConditionOperator, Error>(op),
            Err(_) => r matches Err(e) && e is Parse,
        },
{
    let cs = crate::outside::chars_of(s.as_str());
    if crate::strutil::chars_ci_eq(&cs, &crate::outside::chars_of("equals")) {
        Ok(crate::condition::ConditionOperator::Equals)
    } else if crate::strutil::chars_ci_eq(&cs, &crate::outside::chars_of("not_equals")) {
        Ok(crate::condition::ConditionOperator::NotEquals)
    } else if crate::strutil::chars_ci_eq(&cs, &crate::outside::chars_of("greater_than")) {
        Ok(crate::condition::ConditionOperator::GreaterThan)
    } else if crate::strutil::chars_ci_eq(
        &cs,
        &crate::outside::chars_of("greater_than_or_equals"),
    ) {
        Ok(crate::condition::ConditionOperator::GreaterThanOrEquals)
    } else if crate::strutil::chars_ci_eq(&cs, &crate::outside::chars_of("less_than")) {
        Ok(crate::condition::ConditionOperator::LessThan)
    } else if crate::strutil::chars_ci_eq(&cs, &crate::outside::chars_of("less_than_or_equals")) {
        Ok(crate::condition::ConditionOperator::LessThanOrEquals)
    } else if crate::strutil::chars_ci_eq(&cs, &crate::outside::chars_of("in")) {
        Ok(crate::condition::ConditionOperator::In)
    } else if crate::strutil::chars_ci_eq(&cs, &crate::outside::chars_of("not_in")) {
        Ok(crate::condition::ConditionOperator::NotIn)
    } else if crate::strutil::chars_ci_eq(&cs, &crate::outside::chars_of("contains")) {
        Ok(crate::condition::ConditionOperator::Contains)
    } else if crate::strutil::chars_ci_eq(&cs, &crate::outside::chars_of("starts_with")) {
        Ok(crate::condition::ConditionOperator::StartsWith)
    } else if crate::strutil::chars_ci_eq(&cs, &crate::outside::chars_of("ends_with")) {
        Ok(crate::condition::ConditionOperator::EndsWith)
    } else if crate::strutil::chars_ci_eq(&cs, &crate::outside::chars_of("matches")) {
        Ok(crate::condition::ConditionOperator::Matches)
    } else if crate::strutil::chars_ci_eq(&cs, &crate::outside::chars_of("exists")) {
        Ok(crate::condition::ConditionOperator::Exists)
    } else if crate::strutil::chars_ci_eq(&cs, &crate::outside::chars_of("not_exists")) {
        Ok(crate::condition::ConditionOperator::NotExists)
    } else if crate::strutil::chars_ci_eq(&cs, &crate::outside::chars_of("and")) {
        Ok(crate::condition::ConditionOperator::And)
    } else if crate::strutil::chars_ci_eq(&cs, &crate::outside::chars_of("or")) {
        Ok(crate::condition::ConditionOperator::Or)
    } else if crate::strutil::chars_ci_eq(&cs, &crate::outside::chars_of("not")) {
        Ok(crate::condition::ConditionOperator::Not)
    } else {
        Err(Error::parse("unknown operator"))
    }
}

/// The decision kind a wire name denotes.
fn decision_of_name(s: &String) -> (r: Result<crate::decision::DecisionType, Error>)
    ensures
        match spec_decision_of_name(s@) {
            Ok(d) => r == Ok::<crate::decision::DecisionType, Error>(d),
            Err(_) => r matches Err(e) && e is Parse,
        },
{
    let cs = crate::outside::chars_of(s.as_str());
    if crate::strutil::chars_ci_eq(&cs, &crate::outside::chars_of("allow")) {
        Ok(crate::decision::DecisionType::Allow)
    } else if crate::strutil::chars_ci_eq(&cs, &crate::outside::chars_of("deny")) {
        Ok(crate::decision::DecisionType::Deny)
    } else if crate::strutil::chars_ci_eq(&cs, &crate::outside::chars_of("warn")) {
        Ok(crate::decision::DecisionType::Warn)
    } else if crate::strutil::chars_ci_eq(&cs, &crate::outside::chars_of("modify")) {
        Ok(crate::decision::DecisionType::Modify)
    } else {
        Err(Error::parse("unknown decision type"))
    }
}

/// The action type a wire name denotes.
fn action_type_of_name(s: &String) -> (r: Result<crate::action::ActionType, Error>)
    ensures
        match spec_action_type_of_name(s@) {
            Ok(t) => r == Ok::<crate::action::ActionType, Error>(t),
            Err(_) => r matches Err(e) && e is Parse,
        },
{
    let cs = crate::outside::chars_of(s.as_str());
    if crate::strutil::chars_ci_eq(&cs, &crate::outside::chars_of("allow")) {
        Ok(crate::action::ActionType::Allow)
    } else if crate::strutil::chars_ci_eq(&cs, &crate::outside::chars_of("deny")) {
        Ok(crate::action::ActionType::Deny)
    } else if crate::strutil::chars_ci_eq(&cs, &crate::outside::chars_of("warn")) {
        Ok(crate::action::ActionType::Warn)
    } else if crate::strutil::chars_ci_eq(&cs, &crate::outside::chars_of("modify")) {
        Ok(crate::action::ActionType::Modify)
    } else if crate::strutil::chars_ci_eq(&cs, &crate::outside::chars_of("log")) {
        Ok(crate::action::ActionType::Log)
    } else if crate::strutil::chars_ci_eq(&cs, &crate::outside::chars_of("rate_limit"))
        || crate::strutil::chars_ci_eq(&cs, &crate::outside::chars_of("ratelimit")) {
        Ok(crate::action::ActionType::RateLimit)
    } else {
        Err(Error::parse("unknown action type"))
    }
}

/// The modification kind a wire name denotes.
fn mod_type_of_name(s: &String) -> (r: Result<crate::action::ModificationType, Error>)
    ensures
        match spec_mod_type_of_name(s@) {
            Ok(t) => r == Ok::<crate::action::ModificationType, Error>(t),
            Err(_) => r matches Err(e) && e is Parse,
        },
{
    let cs = crate::outside::chars_of(s.as_str());
    if crate::strutil::chars_ci_eq(&cs, &crate::outside::chars_of("set")) {
        Ok(crate::action::ModificationType::SetField)
    } else if crate::strutil::chars_ci_eq(&cs, &crate::outside::chars_of("remove")) {
        Ok(crate::action::ModificationType::Remove)
    } else if crate::strutil::chars_ci_eq(&cs, &crate::outside::chars_of("append")) {
        Ok(crate::action::ModificationType::Append)
    } else if crate::strutil::chars_ci_eq(&cs, &crate::outside::chars_of("mask")) {
        Ok(crate::action::ModificationType::Mask)
    } else if crate::strutil::chars_ci_eq(&cs, &crate::outside::chars_of("truncate")) {
        Ok(crate::action::ModificationType::Truncate)
    } else {
        Err(Error::parse("unknown modification type"))
    }
}

} // verus!

verus! {

/// A modification from its wire object.
fn mod_of_node(n: &JsonNode) -> (r: Result<crate::action::Modification, Error>)
    ensures
        match spec_mod_of_node(n.deep_view()) {
            Ok(m) => r matches Ok(rm) && rm@ == m,
            Err(_) => r matches Err(e) && e is Parse,
        },
{
    match n {
        JsonNode::Obj(entries) => {
            let tname = match req_str(obj_get(entries, "type")) {
                Ok(t) => t,
                Err(e) => {
                    return Err(e);
                },
            };
            let mt = match mod_type_of_name(&tname) {
                Ok(t) => t,
                Err(e) => {
                    return Err(e);
                },
            };
            let field = match req_str(obj_get(entries, "field")) {
                Ok(f) => f,
                Err(e) => {
                    return Err(e);
                },
            };
            let value = match obj_get(entries, "value") {
                None => None,
                Some(vn) => match value_of_node(vn) {
                    Ok(v) => Some(v),
                    Err(e) => {
                        return Err(e);
                    },
                },
            };
            Ok(crate::action::Modification { modification_type: mt, field, value })
        },
        _ => Err(Error::parse("expected a modification object")),
    }
}

/// An action from its wire object.
fn action_of_node(n: &JsonNode) -> (r: Result<crate::action::Action, Error>)
    ensures
        match spec_action_of_node(n.deep_view()) {
            Ok(a) => r matches Ok(ra) && ra@ == a,
            Err(_) => r matches Err(e) && e is Parse,
        },
{
    match n {
        JsonNode::Obj(entries) => {
            let tname = match req_str(obj_get(entries, "type")) {
                Ok(t) => t,
                Err(e) => {
                    return Err(e);
                },
            };
            let at = match action_type_of_name(&tname) {
                Ok(t) => t,
                Err(e) => {
                    return Err(e);
                },
            };
            let decision = match obj_get(entries, "decision") {
                None => crate::decision::DecisionType::Allow,
                Some(JsonNode::Str(dn)) => match decision_of_name(dn) {
                    Ok(d) => d,
                    Err(e) => {
                        return Err(e);
                    },
                },
                Some(_) => {
                    return Err(Error::parse("expected a decision name"));
                },
            };
            let reason = match opt_str(obj_get(entries, "reason")) {
                Ok(s) => s,
                Err(e) => {
                    return Err(e);
                },
            };
            let modifications = match obj_get(entries, "modifications") {
                None => {
                    let out: Vec<crate::action::Modification> = Vec::new();
                    proof {
                        assert(out.deep_view() =~= Seq::<crate::action::ModView>::empty());
                    }
                    out
                },
                Some(JsonNode::Arr(items)) => {
                    let mut out: Vec<crate::action::Modification> = Vec::new();
                    let mut i: usize = 0;
                    let ghost nviews = crate::json::node_views(items@);
                    proof {
                        crate::json::lemma_node_views(items@);
                        assert(out.deep_view() =~= Seq::<crate::action::ModView>::empty());
                        assert(nviews.subrange(0, nviews.len() as int) =~= nviews);
                    }
                    while i < items.len()
                        invariant
                            i <= items@.len(),
                            nviews == crate::json::node_views(items@),
                            nviews.len() == items@.len(),
                            forall|j: int|
                                0 <= j < items@.len() ==> #[trigger] nviews[j] == items@[
                                    j
                                ].deep_view(),
                            spec_mods_of_nodes(nviews) == (match spec_mods_of_nodes(
                                nviews.subrange(i as int, nviews.len() as int),
                            ) {
                                Ok(rest) => Ok::<Seq<crate::action::ModView>, ()>(
                                    out.deep_view() + rest,
                                ),
                                Err(u) => Err::<Seq<crate::action::ModView>, ()>(u),
                            }),
                        decreases items@.len() - i,
                    {
                        let ghost suffix = nviews.subrange(i as int, nviews.len() as int);
                        proof {
                            assert(suffix[0] == nviews[i as int]);
                            assert(suffix.subrange(1, suffix.len() as int) =~= nviews.subrange(
                                i + 1 as int,
                                nviews.len() as int,
                            ));
                        }
                        let m = match mod_of_node(&items[i]) {
                            Ok(m) => m,
                            Err(e) => {
                                return Err(e);
                            },
                        };
                        let ghost before = out.deep_view();
                        out.push(m);
                        proof {
                            assert(out.deep_view() =~~= before.push(m@));
                            match spec_mods_of_nodes(
                                nviews.subrange(i + 1 as int, nviews.len() as int),
                            ) {
                                Ok(rest) => {
                                    assert(before + (seq![m@] + rest) =~= before.push(m@) + rest);
                                },
                                Err(_) => {},
                            }
                        }
                        i = i + 1;
                    }
                    proof {
                        assert(nviews.subrange(nviews.len() as int, nviews.len() as int) =~= Seq::<
                            crate::json::NodeView,
                        >::empty());
                        match spec_mods_of_nodes(nviews) {
                            Ok(ms) => {
                                assert(out.deep_view() + Seq::<crate::action::ModView>::empty()
                                    =~= out.deep_view());
                            },
                            Err(_) => {},
                        }
                    }
                    out
                },
                Some(_) => {
                    return Err(Error::parse("expected a list of modifications"));
                },
            };
            let metadata = match value_map(obj_get(entries, "metadata")) {
                Ok(m) => m,
                Err(e) => {
                    return Err(e);
                },
            };
            Ok(
                crate::action::Action {
                    action_type: at,
                    decision,
                    reason,
                    modifications,
                    metadata,
                },
            )
        },
        _ => Err(Error::parse("expected an action object")),
    }
}

/// A metadata mapping (string to condition value) from an optional wire
/// object.
fn value_map(o: Option<&JsonNode>) -> (r: Result<
    Vec<(String, crate::value::ConditionValue)>,
    Error,
>)
    ensures
        match spec_value_map(view_opt(o)) {
            Ok(m) => r matches Ok(rm) && rm.deep_view() == m,
            Err(_) => r matches Err(e) && e is Parse,
        },
{
    match o {
        None => {
            let out: Vec<(String, crate::value::ConditionValue)> = Vec::new();
            proof {
                assert(out.deep_view() =~= Seq::<
                    (Seq<char>, crate::value::ValueView),
                >::empty());
            }
            Ok(out)
        },
        Some(JsonNode::Obj(entries)) => {
            let mut out: Vec<(String, crate::value::ConditionValue)> = Vec::new();
            let mut i: usize = 0;
            let ghost eviews = crate::json::entry_views(entries@);
            proof {
                crate::json::lemma_entry_views(entries@);
                assert(out.deep_view() =~= Seq::<
                    (Seq<char>, crate::value::ValueView),
                >::empty());
                assert(eviews.subrange(0, eviews.len() as int) =~= eviews);
            }
            while i < entries.len()
                invariant
                    i <= entries@.len(),
                    eviews == crate::json::entry_views(entries@),
                    eviews.len() == entries@.len(),
                    forall|j: int|
                        0 <= j < entries@.len() ==> #[trigger] eviews[j] == (
                            entries@[j].0@,
                            entries@[j].1.deep_view(),
                        ),
                    spec_value_entries(eviews) == (match spec_value_entries(
                        eviews.subrange(i as int, eviews.len() as int),
                    ) {
                        Ok(rest) => Ok::<Seq<(Seq<char>, crate::value::ValueView)>, ()>(
                            out.deep_view() + rest,
                        ),
                        Err(u) => Err::<Seq<(Seq<char>, crate::value::ValueView)>, ()>(u),
                    }),
                decreases entries@.len() - i,
            {
                let ghost suffix = eviews.subrange(i as int, eviews.len() as int);
                proof {
                    assert(suffix[0] == eviews[i as int]);
                    assert(suffix.subrange(1, suffix.len() as int) =~= eviews.subrange(
                        i + 1 as int,
                        eviews.len() as int,
                    ));
                }
                let v = match value_of_node(&entries[i].1) {
                    Ok(v) => v,
                    Err(e) => {
                        return Err(e);
                    },
                };
                let ghost before = out.deep_view();
                let pair = (entries[i].0.clone(), v);
                out.push(pair);
                proof {
                    assert(out.deep_view() =~~= before.push((entries@[i as int].0@, pair.1@)));
                    match spec_value_entries(eviews.subrange(i + 1 as int, eviews.len() as int)) {
                        Ok(rest) => {
                            assert(before + (seq![(entries@[i as int].0@, pair.1@)] + rest)
                                =~= before.push((entries@[i as int].0@, pair.1@)) + rest);
                        },
                        Err(_) => {},
                    }
                }
                i = i + 1;
            }
            proof {
                assert(eviews.subrange(eviews.len() as int, eviews.len() as int) =~= Seq::<
                    (Seq<char>, crate::json::NodeView),
                >::empty());
                match spec_value_entries(eviews) {
                    Ok(m) => {
                        assert(out.deep_view() + Seq::<
                            (Seq<char>, crate::value::ValueView),
                        >::empty() =~= out.deep_view());
                    },
                    Err(_) => {},
                }
            }
            Ok(out)
        },
        Some(_) => Err(Error::parse("expected a mapping of values")),
    }
}

/// A condition from its wire object, recursively.
fn condition_of_node(n: &JsonNode) -> (r: Result<crate::condition::Condition, Error>)
    ensures
        match spec_condition_of_node(n.deep_view()) {
            Ok(c) => r matches Ok(rc) && rc@ == c,
            Err(_) => r matches Err(e) && e is Parse,
        },
    decreases n,
{
    match n {
        JsonNode::Obj(entries) => {
            let opname = match req_str(obj_get(entries, "operator")) {
                Ok(t) => t,
                Err(e) => {
                    return Err(e);
                },
            };
            let op = match operator_of_name(&opname) {
                Ok(op) => op,
                Err(e) => {
                    return Err(e);
                },
            };
            let field = match opt_str(obj_get(entries, "field")) {
                Ok(f) => f,
                Err(e) => {
                    return Err(e);
                },
            };
            let value = match obj_get(entries, "value") {
                None => None,
                Some(vn) => match value_of_node(vn) {
                    Ok(v) => Some(v),
                    Err(e) => {
                        return Err(e);
                    },
                },
            };
            let children = match obj_get(entries, "conditions") {
                None => {
                    let out: Vec<crate::condition::Condition> = Vec::new();
                    proof {
                        crate::condition::lemma_cond_views(out@);
                        assert(crate::condition::cond_views(out@) =~= Seq::<
                            crate::condition::CondView,
                        >::empty());
                    }
                    out
                },
                Some(child_node) => {
                    proof {
                        assert(decreases_to!(*n => *entries));
                        assert(decreases_to!(*entries => entries@));
                        let j = choose|j: int|
                            0 <= j < entries@.len() && *child_node == (#[trigger] entries@[j]).1;
                        assert(decreases_to!(entries@ => entries@[j]));
                        assert(decreases_to!(entries@[j] => entries@[j].1));
                        assert(*child_node == entries@[j].1);
                    }
                    match child_node {
                        JsonNode::Arr(items) => {
                            let mut out: Vec<crate::condition::Condition> = Vec::new();
                            let mut i: usize = 0;
                            let ghost nviews = crate::json::node_views(items@);
                            proof {
                                crate::json::lemma_node_views(items@);
                                crate::condition::lemma_cond_views(out@);
                                assert(crate::condition::cond_views(out@) =~= Seq::<
                                    crate::condition::CondView,
                                >::empty());
                                assert(nviews.subrange(0, nviews.len() as int) =~= nviews);
                            }
                            while i < items.len()
                                invariant
                                    i <= items@.len(),
                                    nviews == crate::json::node_views(items@),
                                    nviews.len() == items@.len(),
                                    forall|j: int|
                                        0 <= j < items@.len() ==> #[trigger] nviews[j] == items@[
                                            j
                                        ].deep_view(),
                                    spec_conditions_of_nodes(nviews) == (
                                    match spec_conditions_of_nodes(
                                        nviews.subrange(i as int, nviews.len() as int),
                                    ) {
                                        Ok(rest) => Ok::<Seq<crate::condition::CondView>, ()>(
                                            crate::condition::cond_views(out@) + rest,
                                        ),
                                        Err(u) => Err::<Seq<crate::condition::CondView>, ()>(u),
                                    }),
                                decreases items@.len() - i,
                            {
                                let ghost suffix = nviews.subrange(
                                    i as int,
                                    nviews.len() as int,
                                );
                                proof {
                                    assert(suffix[0] == nviews[i as int]);
                                    assert(suffix.subrange(1, suffix.len() as int)
                                        =~= nviews.subrange(
                                        i + 1 as int,
                                        nviews.len() as int,
                                    ));
                                    assert(decreases_to!(*items => items@));
                                    assert(decreases_to!(items@ => items@[i as int]));
                                }
                                let c = match condition_of_node(&items[i]) {
                                    Ok(c) => c,
                                    Err(e) => {
                                        return Err(e);
                                    },
                                };
                                let ghost oldv = out@;
                                let ghost before = crate::condition::cond_views(out@);
                                out.push(c);
                                proof {
                                    crate::condition::lemma_cond_views(out@);
                                    crate::condition::lemma_cond_views(oldv);
                                    assert(out@ =~= oldv.push(c));
                                    assert(crate::condition::cond_views(out@) =~= before.push(
                                        c@,
                                    ));
                                    match spec_conditions_of_nodes(
                                        nviews.subrange(i + 1 as int, nviews.len() as int),
                                    ) {
                                        Ok(rest) => {
                                            assert(before + (seq![c@] + rest) =~= before.push(c@)
                                                + rest);
                                        },
                                        Err(_) => {},
                                    }
                                }
                                i = i + 1;
                            }
                            proof {
                                assert(nviews.subrange(nviews.len() as int, nviews.len() as int)
                                    =~= Seq::<crate::json::NodeView>::empty());
                                match spec_conditions_of_nodes(nviews) {
                                    Ok(cs) => {
                                        assert(crate::condition::cond_views(out@) + Seq::<
                                            crate::condition::CondView,
                                        >::empty() =~= crate::condition::cond_views(out@));
                                    },
                                    Err(_) => {},
                                }
                            }
                            out
                        },
                        _ => {
                            return Err(Error::parse("expected a list of conditions"));
                        },
                    }
                },
            };
            Ok(crate::condition::Condition { operator: op, field, value, conditions: children })
        },
        _ => Err(Error::parse("expected a condition object")),
    }
}

} // verus!

verus! {

/// Policy metadata from its wire object.
fn metadata_of_node(n: &JsonNode) -> (r: Result<crate::policy::PolicyMetadata, Error>)
    ensures
        match spec_metadata_of_node(n.deep_view()) {
            Ok(m) => r matches Ok(rm) && rm@ == m,
            Err(_) => r matches Err(e) && e is Parse,
        },
{
    match n {
        JsonNode::Obj(entries) => {
            let name = match req_str(obj_get(entries, "name")) {
                Ok(v) => v,
                Err(e) => {
                    return Err(e);
                },
            };
            let description = match opt_str(obj_get(entries, "description")) {
                Ok(v) => v,
                Err(e) => {
                    return Err(e);
                },
            };
            let version = match str_or(obj_get(entries, "version"), "1.0.0") {
                Ok(v) => v,
                Err(e) => {
                    return Err(e);
                },
            };
            let namespace = match opt_str(obj_get(entries, "namespace")) {
                Ok(v) => v,
                Err(e) => {
                    return Err(e);
                },
            };
            let tags = match str_list(obj_get(entries, "tags")) {
                Ok(v) => v,
                Err(e) => {
                    return Err(e);
                },
            };
            let created_by = match opt_str(obj_get_2(entries, "createdBy", "created_by")) {
                Ok(v) => v,
                Err(e) => {
                    return Err(e);
                },
            };
            let created_at = match str_or(obj_get_2(entries, "createdAt", "created_at"), "") {
                Ok(v) => v,
                Err(e) => {
                    return Err(e);
                },
            };
            let updated_at = match str_or(obj_get_2(entries, "updatedAt", "updated_at"), "") {
                Ok(v) => v,
                Err(e) => {
                    return Err(e);
                },
            };
            let labels = match str_map(obj_get(entries, "labels")) {
                Ok(v) => v,
                Err(e) => {
                    return Err(e);
                },
            };
            proof {
                reveal_strlit("");
                assert(""@ =~= Seq::<char>::empty());
            }
            Ok(
                crate::policy::PolicyMetadata {
                    name,
                    description,
                    version,
                    namespace,
                    tags,
                    created_by,
                    created_at,
                    updated_at,
                    labels,
                },
            )
        },
        _ => Err(Error::parse("expected a metadata object")),
    }
}

/// A rule from its wire object.
fn rule_of_node(n: &JsonNode) -> (r: Result<crate::rule::PolicyRule, Error>)
    ensures
        match spec_rule_of_node(n.deep_view()) {
            Ok(rv) => r matches Ok(rr) && rr@ == rv,
            Err(_) => r matches Err(e) && e is Parse,
        },
{
    match n {
        JsonNode::Obj(entries) => {
            let id = match req_str(obj_get(entries, "id")) {
                Ok(v) => v,
                Err(e) => {
                    return Err(e);
                },
            };
            let name = match req_str(obj_get(entries, "name")) {
                Ok(v) => v,
                Err(e) => {
                    return Err(e);
                },
            };
            let description = match opt_str(obj_get(entries, "description")) {
                Ok(v) => v,
                Err(e) => {
                    return Err(e);
                },
            };
            let condition = match obj_get(entries, "condition") {
                None => {
                    return Err(Error::parse("a rule needs a condition"));
                },
                Some(cn) => match condition_of_node(cn) {
                    Ok(c) => c,
                    Err(e) => {
                        return Err(e);
                    },
                },
            };
            let action = match obj_get(entries, "action") {
                None => {
                    return Err(Error::parse("a rule needs an action"));
                },
                Some(an) => match action_of_node(an) {
                    Ok(a) => a,
                    Err(e) => {
                        return Err(e);
                    },
                },
            };
            let enabled = match bool_or(obj_get(entries, "enabled"), true) {
                Ok(v) => v,
                Err(e) => {
                    return Err(e);
                },
            };
            let priority = match i32_or(obj_get(entries, "priority"), 0) {
                Ok(v) => v,
                Err(e) => {
                    return Err(e);
                },
            };
            Ok(
                crate::rule::PolicyRule {
                    id,
                    name,
                    description,
                    condition,
                    action,
                    enabled,
                    priority,
                },
            )
        },
        _ => Err(Error::parse("expected a rule object")),
    }
}

/// A policy from its wire object.
fn policy_of_node(n: &JsonNode) -> (r: Result<Policy, Error>)
    ensures
        match spec_policy_of_node(n.deep_view()) {
            Ok(pv) => r matches Ok(rp) && rp@ == pv,
            Err(_) => r matches Err(e) && e is Parse,
        },
{
    match n {
        JsonNode::Obj(entries) => {
            let id = match req_str(obj_get(entries, "id")) {
                Ok(v) => v,
                Err(e) => {
                    return Err(e);
                },
            };
            let metadata = match obj_get(entries, "metadata") {
                None => {
                    return Err(Error::parse("a policy needs metadata"));
                },
                Some(mn) => match metadata_of_node(mn) {
                    Ok(m) => m,
                    Err(e) => {
                        return Err(e);
                    },
                },
            };
            let rules = match obj_get(entries, "rules") {
                Some(JsonNode::Arr(items)) => {
                    let mut out: Vec<crate::rule::PolicyRule> = Vec::new();
                    let mut i: usize = 0;
                    let ghost nviews = crate::json::node_views(items@);
                    proof {
                        crate::json::lemma_node_views(items@);
                        assert(out.deep_view() =~= Seq::<RuleView>::empty());
                        assert(nviews.subrange(0, nviews.len() as int) =~= nviews);
                    }
                    while i < items.len()
                        invariant
                            i <= items@.len(),
                            nviews == crate::json::node_views(items@),
                            nviews.len() == items@.len(),
                            forall|j: int|
                                0 <= j < items@.len() ==> #[trigger] nviews[j] == items@[
                                    j
                                ].deep_view(),
                            spec_rules_of_nodes(nviews) == (match spec_rules_of_nodes(
                                nviews.subrange(i as int, nviews.len() as int),
                            ) {
                                Ok(rest) => Ok::<Seq<RuleView>, ()>(out.deep_view() + rest),
                                Err(u) => Err::<Seq<RuleView>, ()>(u),
                            }),
                        decreases items@.len() - i,
                    {
                        let ghost suffix = nviews.subrange(i as int, nviews.len() as int);
                        proof {
                            assert(suffix[0] == nviews[i as int]);
                            assert(suffix.subrange(1, suffix.len() as int) =~= nviews.subrange(
                                i + 1 as int,
                                nviews.len() as int,
                            ));
                        }
                        let rule = match rule_of_node(&items[i]) {
                            Ok(r0) => r0,
                            Err(e) => {
                                return Err(e);
                            },
                        };
                        let ghost before = out.deep_view();
                        out.push(rule);
                        proof {
                            assert(out.deep_view() =~~= before.push(out@[out@.len() - 1]@));
                            match spec_rules_of_nodes(
                                nviews.subrange(i + 1 as int, nviews.len() as int),
                            ) {
                                Ok(rest) => {
                                    assert(before + (seq![out@[out@.len() - 1]@] + rest)
                                        =~= before.push(out@[out@.len() - 1]@) + rest);
                                },
                                Err(_) => {},
                            }
                        }
                        i = i + 1;
                    }
                    proof {
                        assert(nviews.subrange(nviews.len() as int, nviews.len() as int) =~= Seq::<
                            crate::json::NodeView,
                        >::empty());
                        match spec_rules_of_nodes(nviews) {
                            Ok(rs) => {
                                assert(out.deep_view() + Seq::<RuleView>::empty()
                                    =~= out.deep_view());
                            },
                            Err(_) => {},
                        }
                    }
                    out
                },
                _ => {
                    return Err(Error::parse("a policy needs a list of rules"));
                },
            };
            let enabled = match bool_or(obj_get(entries, "enabled"), true) {
                Ok(v) => v,
                Err(e) => {
                    return Err(e);
                },
            };
            let priority = match i32_or(obj_get(entries, "priority"), 0) {
                Ok(v) => v,
                Err(e) => {
                    return Err(e);
                },
            };
            Ok(Policy { id, metadata, rules, enabled, priority })
        },
        _ => Err(Error::parse("expected a policy object")),
    }
}

/// A whole document from its wire object.
fn document_of_node(n: &JsonNode) -> (r: Result<PolicyDocument, Error>)
    ensures
        match spec_document_of_node(n.deep_view()) {
            Ok(dv) => r matches Ok(rd) && rd@ == dv,
            Err(_) => r matches Err(e) && e is Parse,
        },
{
    match n {
        JsonNode::Obj(entries) => {
            let api_version = match str_or(
                obj_get_2(entries, "apiVersion", "api_version"),
                "policy.llm-dev-ops.io/v1",
            ) {
                Ok(v) => v,
                Err(e) => {
                    return Err(e);
                },
            };
            let kind = match str_or(obj_get(entries, "kind"), "PolicyDocument") {
                Ok(v) => v,
                Err(e) => {
                    return Err(e);
                },
            };
            let policies = match obj_get(entries, "policies") {
                None => {
                    let out: Vec<Policy> = Vec::new();
                    proof {
                        assert(out.deep_view() =~= Seq::<PolicyView>::empty());
                    }
                    out
                },
                Some(JsonNode::Arr(items)) => {
                    let mut out: Vec<Policy> = Vec::new();
                    let mut i: usize = 0;
                    let ghost nviews = crate::json::node_views(items@);
                    proof {
                        crate::json::lemma_node_views(items@);
                        assert(out.deep_view() =~= Seq::<PolicyView>::empty());
                        assert(nviews.subrange(0, nviews.len() as int) =~= nviews);
                    }
                    while i < items.len()
                        invariant
                            i <= items@.len(),
                            nviews == crate::json::node_views(items@),
                            nviews.len() == items@.len(),
                            forall|j: int|
                                0 <= j < items@.len() ==> #[trigger] nviews[j] == items@[
                                    j
                                ].deep_view(),
                            spec_policies_of_nodes(nviews) == (match spec_policies_of_nodes(
                                nviews.subrange(i as int, nviews.len() as int),
                            ) {
                                Ok(rest) => Ok::<Seq<PolicyView>, ()>(out.deep_view() + rest),
                                Err(u) => Err::<Seq<PolicyView>, ()>(u),
                            }),
                        decreases items@.len() - i,
                    {
                        let ghost suffix = nviews.subrange(i as int, nviews.len() as int);
                        proof {
                            assert(suffix[0] == nviews[i as int]);
                            assert(suffix.subrange(1, suffix.len() as int) =~= nviews.subrange(
                                i + 1 as int,
                                nviews.len() as int,
                            ));
                        }
                        let p = match policy_of_node(&items[i]) {
                            Ok(p) => p,
                            Err(e) => {
                                return Err(e);
                            },
                        };
                        let ghost before = out.deep_view();
                        out.push(p);
                        proof {
                            assert(out.deep_view() =~~= before.push(out@[out@.len() - 1]@));
                            match spec_policies_of_nodes(
                                nviews.subrange(i + 1 as int, nviews.len() as int),
                            ) {
                                Ok(rest) => {
                                    assert(before + (seq![out@[out@.len() - 1]@] + rest)
                                        =~= before.push(out@[out@.len() - 1]@) + rest);
                                },
                                Err(_) => {},
                            }
                        }
                        i = i + 1;
                    }
                    proof {
                        assert(nviews.subrange(nviews.len() as int, nviews.len() as int) =~= Seq::<
                            crate::json::NodeView,
                        >::empty());
                        match spec_policies_of_nodes(nviews) {
                            Ok(ps) => {
                                assert(out.deep_view() + Seq::<PolicyView>::empty()
                                    =~= out.deep_view());
                            },
                            Err(_) => {},
                        }
                    }
                    out
                },
                Some(_) => {
                    return Err(Error::parse("expected a list of policies"));
                },
            };
            Ok(PolicyDocument { api_version, kind, policies })
        },
        _ => Err(Error::parse("expected a document object")),
    }
}

impl PolicyDocument {
    /// Parse a policy document from JSON text.
    pub fn from_json(json: &str) -> (r: Result<Self, Error>)
        ensures
            match spec_document_of_text(json@) {
                Ok(dv) => r matches Ok(d) && d@ == dv,
                Err(_) => r matches Err(e) && e is Parse,
            },
    {
        let node = match crate::json::parse_json_text(json) {
            Ok(n) => n,
            Err(e) => {
                return Err(e);
            },
        };
        document_of_node(&node)
    }

    /// Parse a policy document from YAML text, through its JSON form.
    pub fn from_yaml(yaml: &str) -> (r: Result<Self, Error>)
        ensures
            match crate::outside::yaml_as_json(yaml@) {
                Some(j) => match spec_document_of_text(j) {
                    Ok(dv) => r matches Ok(d) && d@ == dv,
                    Err(_) => r matches Err(e) && (e is Parse || e is Yaml),
                },
                None => r matches Err(e) && e is Yaml,
            },
    {
        let text = match crate::outside::yaml_to_json_text(yaml) {
            Ok(t) => t,
            Err(m) => {
                return Err(Error::Yaml { message: m });
            },
        };
        Self::from_json(text.as_str())
    }

    /// Parse a policy document from text, selecting the format by the file
    /// extension the text came from: `yaml`/`yml` parse as YAML, `json` as
    /// JSON, anything else tries YAML first and then JSON.
    pub fn from_text(content: &str, extension: &str) -> Result<Self, Error> {
        let ext = crate::outside::chars_of(extension);
        if crate::strutil::chars_ci_eq(&ext, &crate::outside::chars_of("yaml"))
            || crate::strutil::chars_ci_eq(&ext, &crate::outside::chars_of("yml")) {
            Self::from_yaml(content)
        } else if crate::strutil::chars_ci_eq(&ext, &crate::outside::chars_of("json")) {
            Self::from_json(content)
        } else {
            match Self::from_yaml(content) {
                Ok(d) => Ok(d),
                Err(_) => Self::from_json(content),
            }
        }
    }
}

} // verus!

verus! {

/// The canonical wire name of an operator.
pub open spec fn spec_operator_name(op: crate::condition::ConditionOperator) -> Seq<char> {
    match op {
        crate::condition::ConditionOperator::Equals => "equals"@,
        crate::condition::ConditionOperator::NotEquals => "not_equals"@,
        crate::condition::ConditionOperator::GreaterThan => "greater_than"@,
        crate::condition::ConditionOperator::GreaterThanOrEquals => "greater_than_or_equals"@,
        crate::condition::ConditionOperator::LessThan => "less_than"@,
        crate::condition::ConditionOperator::LessThanOrEquals => "less_than_or_equals"@,
        crate::condition::ConditionOperator::In => "in"@,
        crate::condition::ConditionOperator::NotIn => "not_in"@,
        crate::condition::ConditionOperator::Contains => "contains"@,
        crate::condition::ConditionOperator::StartsWith => "starts_with"@,
        crate::condition::ConditionOperator::EndsWith => "ends_with"@,
        crate::condition::ConditionOperator::Matches => "matches"@,
        crate::condition::ConditionOperator::Exists => "exists"@,
        crate::condition::ConditionOperator::NotExists => "not_exists"@,
        crate::condition::ConditionOperator::And => "and"@,
        crate::condition::ConditionOperator::Or => "or"@,
        crate::condition::ConditionOperator::Not => "not"@,
    }
}

/// The canonical wire name of an action type.
pub open spec fn spec_action_type_name(t: crate::action::ActionType) -> Seq<char> {
    match t {
        crate::action::ActionType::Allow => "allow"@,
        crate::action::ActionType::Deny => "deny"@,
        crate::action::ActionType::Warn => "warn"@,
        crate::action::ActionType::Modify => "modify"@,
        crate::action::ActionType::Log => "log"@,
        crate::action::ActionType::RateLimit => "rate_limit"@,
    }
}

/// The canonical wire name of a modification kind.
pub open spec fn spec_mod_type_name(t: crate::action::ModificationType) -> Seq<char> {
    match t {
        crate::action::ModificationType::SetField => "set"@,
        crate::action::ModificationType::Remove => "remove"@,
        crate::action::ModificationType::Append => "append"@,
        crate::action::ModificationType::Mask => "mask"@,
        crate::action::ModificationType::Truncate => "truncate"@,
    }
}

/// The wire object of a modification.
pub open spec fn spec_mod_node(m: crate::action::ModView) -> crate::json::NodeView {
    crate::json::NodeView::Obj(
        seq![
            ("type"@, crate::json::NodeView::Str(spec_mod_type_name(m.modification_type))),
            ("field"@, crate::json::NodeView::Str(m.field)),
        ] + (match m.value {
            Some(v) => seq![("value"@, crate::json::spec_value_node(v))],
            None => Seq::empty(),
        }),
    )
}

/// The wire objects of a modification list.
pub open spec fn spec_mod_nodes(ms: Seq<crate::action::ModView>) -> Seq<crate::json::NodeView> {
    Seq::new(ms.len(), |i: int| spec_mod_node(ms[i]))
}

/// The wire entries of a value mapping.
pub open spec fn spec_value_map_node(m: Seq<(Seq<char>, crate::value::ValueView)>)
    -> crate::json::NodeView {
    crate::json::NodeView::Obj(
        Seq::new(m.len(), |i: int| (m[i].0, crate::json::spec_value_node(m[i].1))),
    )
}

/// The wire object of an action: reason only when present, modifications and
/// metadata only when non-empty.
pub open spec fn spec_action_node(a: crate::action::ActionView) -> crate::json::NodeView {
    crate::json::NodeView::Obj(
        seq![
            ("type"@, crate::json::NodeView::Str(spec_action_type_name(a.action_type))),
            (
                "decision"@,
                crate::json::NodeView::Str(crate::decision::spec_decision_str(a.decision)),
            ),
        ] + (match a.reason {
            Some(s) => seq![("reason"@, crate::json::NodeView::Str(s))],
            None => Seq::empty(),
        }) + (if a.modifications.len() > 0 {
            seq![
                ("modifications"@, crate::json::NodeView::Arr(spec_mod_nodes(a.modifications))),
            ]
        } else {
            Seq::empty()
        }) + (if a.metadata.len() > 0 {
            seq![("metadata"@, spec_value_map_node(a.metadata))]
        } else {
            Seq::empty()
        }),
    )
}

/// The wire object of a condition: the field and value only when present, the
/// child list only when non-empty.
pub open spec fn spec_cond_node(c: crate::condition::CondView) -> crate::json::NodeView
    decreases c, 1int,
{
    crate::json::NodeView::Obj(
        seq![
            ("operator"@, crate::json::NodeView::Str(spec_operator_name(c.operator))),
        ] + (match c.field {
            Some(f) => seq![("field"@, crate::json::NodeView::Str(f))],
            None => Seq::empty(),
        }) + (match c.value {
            Some(v) => seq![("value"@, crate::json::spec_value_node(v))],
            None => Seq::empty(),
        }) + (if c.conditions.len() > 0 {
            seq![("conditions"@, crate::json::NodeView::Arr(spec_cond_nodes(c.conditions)))]
        } else {
            Seq::empty()
        }),
    )
}

/// The wire objects of a condition list.
pub open spec fn spec_cond_nodes(cs: Seq<crate::condition::CondView>) -> Seq<
    crate::json::NodeView,
>
    decreases cs, 0int,
{
    if cs.len() == 0 {
        Seq::empty()
    } else {
        proof {
            assert(decreases_to!(cs => cs[0]));
            assert(decreases_to!(cs => cs.subrange(1, cs.len() as int)));
        }
        seq![spec_cond_node(cs[0])] + spec_cond_nodes(cs.subrange(1, cs.len() as int))
    }
}

/// The wire object of a rule: the description only when present.
pub open spec fn spec_rule_node(r: RuleView) -> crate::json::NodeView {
    crate::json::NodeView::Obj(
        seq![
            ("id"@, crate::json::NodeView::Str(r.id)),
            ("name"@, crate::json::NodeView::Str(r.name)),
        ] + (match r.description {
            Some(s) => seq![("description"@, crate::json::NodeView::Str(s))],
            None => Seq::empty(),
        }) + seq![
            ("enabled"@, crate::json::NodeView::Bool(r.enabled)),
            ("priority"@, crate::json::NodeView::Int(r.priority)),
            ("condition"@, spec_cond_node(r.condition)),
            ("action"@, spec_action_node(r.action)),
        ],
    )
}

/// The wire object of policy metadata: optional fields only when present.
pub open spec fn spec_meta_node(m: crate::policy::MetadataView) -> crate::json::NodeView {
    crate::json::NodeView::Obj(
        seq![("name"@, crate::json::NodeView::Str(m.name))] + (match m.description {
            Some(s) => seq![("description"@, crate::json::NodeView::Str(s))],
            None => Seq::empty(),
        }) + seq![("version"@, crate::json::NodeView::Str(m.version))] + (match m.namespace {
            Some(s) => seq![("namespace"@, crate::json::NodeView::Str(s))],
            None => Seq::empty(),
        }) + seq![
            (
                "tags"@,
                crate::json::NodeView::Arr(
                    Seq::new(m.tags.len(), |i: int| crate::json::NodeView::Str(m.tags[i])),
                ),
            ),
        ] + (match m.created_by {
            Some(s) => seq![("createdBy"@, crate::json::NodeView::Str(s))],
            None => Seq::empty(),
        }) + seq![
            ("createdAt"@, crate::json::NodeView::Str(m.created_at)),
            ("updatedAt"@, crate::json::NodeView::Str(m.updated_at)),
            (
                "labels"@,
                crate::json::NodeView::Obj(
                    Seq::new(
                        m.labels.len(),
                        |i: int| (m.labels[i].0, crate::json::NodeView::Str(m.labels[i].1)),
                    ),
                ),
            ),
        ],
    )
}

/// The wire object of a policy.
pub open spec fn spec_policy_node(p: PolicyView) -> crate::json::NodeView {
    crate::json::NodeView::Obj(
        seq![
            ("id"@, crate::json::NodeView::Str(p.id)),
            ("metadata"@, spec_meta_node(p.metadata)),
            ("enabled"@, crate::json::NodeView::Bool(p.enabled)),
            ("priority"@, crate::json::NodeView::Int(p.priority)),
            (
                "rules"@,
                crate::json::NodeView::Arr(
                    Seq::new(p.rules.len(), |i: int| spec_rule_node(p.rules[i])),
                ),
            ),
        ],
    )
}

/// The wire object of a whole document.
pub open spec fn spec_doc_node(d: DocumentView) -> crate::json::NodeView {
    crate::json::NodeView::Obj(
        seq![
            ("apiVersion"@, crate::json::NodeView::Str(d.api_version)),
            ("kind"@, crate::json::NodeView::Str(d.kind)),
            (
                "policies"@,
                crate::json::NodeView::Arr(
                    Seq::new(d.policies.len(), |i: int| spec_policy_node(d.policies[i])),
                ),
            ),
        ],
    )
}

} // verus!

verus! {

/// The canonical wire name of an operator.
fn operator_name(op: crate::condition::ConditionOperator) -> (r: &'static str)
    ensures
        r@ == spec_operator_name(op),
{
    match op {
        crate::condition::ConditionOperator::Equals => "equals",
        crate::condition::ConditionOperator::NotEquals => "not_equals",
        crate::condition::ConditionOperator::GreaterThan => "greater_than",
        crate::condition::ConditionOperator::GreaterThanOrEquals => "greater_than_or_equals",
        crate::condition::ConditionOperator::LessThan => "less_than",
        crate::condition::ConditionOperator::LessThanOrEquals => "less_than_or_equals",
        crate::condition::ConditionOperator::In => "in",
        crate::condition::ConditionOperator::NotIn => "not_in",
        crate::condition::ConditionOperator::Contains => "contains",
        crate::condition::ConditionOperator::StartsWith => "starts_with",
        crate::condition::ConditionOperator::EndsWith => "ends_with",
        crate::condition::ConditionOperator::Matches => "matches",
        crate::condition::ConditionOperator::Exists => "exists",
        crate::condition::ConditionOperator::NotExists => "not_exists",
        crate::condition::ConditionOperator::And => "and",
        crate::condition::ConditionOperator::Or => "or",
        crate::condition::ConditionOperator::Not => "not",
    }
}

/// The canonical wire name of an action type.
fn action_type_name(t: crate::action::ActionType) -> (r: &'static str)
    ensures
        r@ == spec_action_type_name(t),
{
    match t {
        crate::action::ActionType::Allow => "allow",
        crate::action::ActionType::Deny => "deny",
        crate::action::ActionType::Warn => "warn",
        crate::action::ActionType::Modify => "modify",
        crate::action::ActionType::Log => "log",
        crate::action::ActionType::RateLimit => "rate_limit",
    }
}

/// The canonical wire name of a modification kind.
fn mod_type_name(t: crate::action::ModificationType) -> (r: &'static str)
    ensures
        r@ == spec_mod_type_name(t),
{
    match t {
        crate::action::ModificationType::SetField => "set",
        crate::action::ModificationType::Remove => "remove",
        crate::action::ModificationType::Append => "append",
        crate::action::ModificationType::Mask => "mask",
        crate::action::ModificationType::Truncate => "truncate",
    }
}

/// The wire object of a modification.
fn mod_node(m: &crate::action::Modification) -> (r: JsonNode)
    ensures
        r@ == spec_mod_node(m@),
{
    let mut fields: Vec<(String, JsonNode)> = Vec::new();
    fields.push(("type".to_owned(), JsonNode::Str(mod_type_name(m.modification_type).to_owned())));
    fields.push(("field".to_owned(), JsonNode::Str(m.field.clone())));
    if let Some(v) = &m.value {
        fields.push(("value".to_owned(), crate::json::value_to_node(v)));
    }
    let node = JsonNode::Obj(fields);
    proof {
        crate::json::lemma_entry_views(node->Obj_0@);
        assert(crate::json::entry_views(node->Obj_0@) =~~= (spec_mod_node(m@))->Obj_0);
    }
    node
}

/// The wire object of an action.
#[verifier::rlimit(60)]
fn action_node(a: &crate::action::Action) -> (r: JsonNode)
    ensures
        r@ == spec_action_node(a@),
{
    let mut fields: Vec<(String, JsonNode)> = Vec::new();
    fields.push(("type".to_owned(), JsonNode::Str(action_type_name(a.action_type).to_owned())));
    fields.push(("decision".to_owned(), JsonNode::Str(a.decision.as_str().to_owned())));
    if let Some(s) = &a.reason {
        fields.push(("reason".to_owned(), JsonNode::Str(s.clone())));
    }
    if a.modifications.len() > 0 {
        let mut items: Vec<JsonNode> = Vec::new();
        let mut i: usize = 0;
        while i < a.modifications.len()
            invariant
                i <= a.modifications@.len(),
                items@.len() == i as int,
                forall|j: int|
                    0 <= j < i as int ==> items@[j].deep_view() == spec_mod_node(
                        #[trigger] a.modifications.deep_view()[j],
                    ),
            decreases a.modifications@.len() - i,
        {
            let n = mod_node(&a.modifications[i]);
            items.push(n);
            i = i + 1;
        }
        proof {
            crate::json::lemma_node_views(items@);
            assert(crate::json::node_views(items@) =~= spec_mod_nodes(a@.modifications));
        }
        fields.push(("modifications".to_owned(), JsonNode::Arr(items)));
    }
    if a.metadata.len() > 0 {
        let mut entries: Vec<(String, JsonNode)> = Vec::new();
        let mut i: usize = 0;
        while i < a.metadata.len()
            invariant
                i <= a.metadata@.len(),
                entries@.len() == i as int,
                forall|j: int|
                    0 <= j < i as int ==> (entries@[j].0@, entries@[j].1.deep_view()) == (
                        (#[trigger] a.metadata.deep_view()[j]).0,
                        crate::json::spec_value_node(a.metadata.deep_view()[j].1),
                    ),
            decreases a.metadata@.len() - i,
        {
            proof {
                assert(a.metadata.deep_view()[i as int] == (
                    a.metadata@[i as int].0@,
                    a.metadata@[i as int].1.deep_view(),
                ));
            }
            let k = a.metadata[i].0.clone();
            let n = crate::json::value_to_node(&a.metadata[i].1);
            entries.push((k, n));
            i = i + 1;
        }
        let mnode = JsonNode::Obj(entries);
        proof {
            crate::json::lemma_entry_views(mnode->Obj_0@);
            assert(crate::json::entry_views(mnode->Obj_0@) =~~= (spec_value_map_node(
                a@.metadata,
            ))->Obj_0);
        }
        fields.push(("metadata".to_owned(), mnode));
    }
    let node = JsonNode::Obj(fields);
    proof {
        crate::json::lemma_entry_views(node->Obj_0@);
        assert(crate::json::entry_views(node->Obj_0@) =~~= (spec_action_node(a@))->Obj_0);
    }
    node
}

/// The wire object of a condition, recursively.
#[verifier::rlimit(60)]
fn cond_node(c: &crate::condition::Condition) -> (r: JsonNode)
    ensures
        r@ == spec_cond_node(c@),
    decreases c,
{
    let mut fields: Vec<(String, JsonNode)> = Vec::new();
    fields.push(("operator".to_owned(), JsonNode::Str(operator_name(c.operator).to_owned())));
    if let Some(f) = &c.field {
        fields.push(("field".to_owned(), JsonNode::Str(f.clone())));
    }
    if let Some(v) = &c.value {
        fields.push(("value".to_owned(), crate::json::value_to_node(v)));
    }
    if c.conditions.len() > 0 {
        let mut items: Vec<JsonNode> = Vec::new();
        let mut i: usize = 0;
        while i < c.conditions.len()
            invariant
                i <= c.conditions@.len(),
                items@.len() == i as int,
                forall|j: int|
                    0 <= j < i as int ==> items@[j].deep_view() == spec_cond_node(
                        #[trigger] crate::condition::cond_views(c.conditions@)[j],
                    ),
            decreases c.conditions@.len() - i,
        {
            proof {
                crate::condition::lemma_cond_views(c.conditions@);
                assert(decreases_to!(*c => c.conditions));
                assert(decreases_to!(c.conditions => c.conditions@));
                assert(decreases_to!(c.conditions@ => c.conditions@[i as int]));
            }
            let n = cond_node(&c.conditions[i]);
            items.push(n);
            i = i + 1;
        }
        proof {
            crate::json::lemma_node_views(items@);
            crate::condition::lemma_cond_views(c.conditions@);
            lemma_cond_nodes(c@.conditions);
            assert(crate::json::node_views(items@) =~= spec_cond_nodes(c@.conditions));
        }
        fields.push(("conditions".to_owned(), JsonNode::Arr(items)));
    }
    let node = JsonNode::Obj(fields);
    proof {
        crate::json::lemma_entry_views(node->Obj_0@);
        assert(crate::json::entry_views(node->Obj_0@) =~~= (spec_cond_node(c@))->Obj_0);
    }
    node
}

/// `spec_cond_nodes` maps pointwise.
proof fn lemma_cond_nodes(cs: Seq<crate::condition::CondView>)
    ensures
        spec_cond_nodes(cs).len() == cs.len(),
        forall|i: int| 0 <= i < cs.len() ==> spec_cond_nodes(cs)[i] == spec_cond_node(cs[i]),
    decreases cs.len(),
{
    if cs.len() > 0 {
        let rest = cs.subrange(1, cs.len() as int);
        lemma_cond_nodes(rest);
        let first = seq![spec_cond_node(cs[0])];
        assert(spec_cond_nodes(cs) == first + spec_cond_nodes(rest));
        assert forall|i: int|
            0 <= i < cs.len() implies spec_cond_nodes(cs)[i] == spec_cond_node(cs[i]) by {
            if i > 0 {
                assert((first + spec_cond_nodes(rest))[i] == spec_cond_nodes(rest)[i - 1]);
                assert(rest[i - 1] == cs[i]);
            }
        }
    }
}

/// The wire object of a rule.
#[verifier::rlimit(60)]
fn rule_node(r0: &crate::rule::PolicyRule) -> (r: JsonNode)
    ensures
        r@ == spec_rule_node(r0@),
{
    let mut fields: Vec<(String, JsonNode)> = Vec::new();
    fields.push(("id".to_owned(), JsonNode::Str(r0.id.clone())));
    fields.push(("name".to_owned(), JsonNode::Str(r0.name.clone())));
    if let Some(s) = &r0.description {
        fields.push(("description".to_owned(), JsonNode::Str(s.clone())));
    }
    fields.push(("enabled".to_owned(), JsonNode::Bool(r0.enabled)));
    fields.push(("priority".to_owned(), JsonNode::Int(r0.priority as i64)));
    fields.push(("condition".to_owned(), cond_node(&r0.condition)));
    fields.push(("action".to_owned(), action_node(&r0.action)));
    let node = JsonNode::Obj(fields);
    proof {
        crate::json::lemma_entry_views(node->Obj_0@);
        assert(crate::json::entry_views(node->Obj_0@) =~~= (spec_rule_node(r0@))->Obj_0);
    }
    node
}

/// The wire object of policy metadata.
#[verifier::rlimit(100)]
fn meta_node(m: &crate::policy::PolicyMetadata) -> (r: JsonNode)
    ensures
        r@ == spec_meta_node(m@),
{
    let mut fields: Vec<(String, JsonNode)> = Vec::new();
    fields.push(("name".to_owned(), JsonNode::Str(m.name.clone())));
    if let Some(s) = &m.description {
        fields.push(("description".to_owned(), JsonNode::Str(s.clone())));
    }
    fields.push(("version".to_owned(), JsonNode::Str(m.version.clone())));
    if let Some(s) = &m.namespace {
        fields.push(("namespace".to_owned(), JsonNode::Str(s.clone())));
    }
    let mut tag_items: Vec<JsonNode> = Vec::new();
    let mut i: usize = 0;
    while i < m.tags.len()
        invariant
            i <= m.tags@.len(),
            tag_items@.len() == i as int,
            forall|j: int|
                0 <= j < i as int ==> tag_items@[j].deep_view() == crate::json::NodeView::Str(
                    #[trigger] m.tags.deep_view()[j],
                ),
        decreases m.tags@.len() - i,
    {
        tag_items.push(JsonNode::Str(m.tags[i].clone()));
        i = i + 1;
    }
    proof {
        crate::json::lemma_node_views(tag_items@);
    }
    fields.push(("tags".to_owned(), JsonNode::Arr(tag_items)));
    if let Some(s) = &m.created_by {
        fields.push(("createdBy".to_owned(), JsonNode::Str(s.clone())));
    }
    fields.push(("createdAt".to_owned(), JsonNode::Str(m.created_at.clone())));
    fields.push(("updatedAt".to_owned(), JsonNode::Str(m.updated_at.clone())));
    let mut label_entries: Vec<(String, JsonNode)> = Vec::new();
    let mut k: usize = 0;
    while k < m.labels.len()
        invariant
            k <= m.labels@.len(),
            label_entries@.len() == k as int,
            forall|j: int|
                0 <= j < k as int ==> (label_entries@[j].0@, label_entries@[j].1.deep_view()) == (
                    (#[trigger] m.labels.deep_view()[j]).0,
                    crate::json::NodeView::Str(m.labels.deep_view()[j].1),
                ),
        decreases m.labels@.len() - k,
    {
        proof {
            assert(m.labels.deep_view()[k as int] == (
                m.labels@[k as int].0@,
                m.labels@[k as int].1@,
            ));
        }
        let pair = (m.labels[k].0.clone(), JsonNode::Str(m.labels[k].1.clone()));
        label_entries.push(pair);
        k = k + 1;
    }
    let lnode = JsonNode::Obj(label_entries);
    proof {
        crate::json::lemma_entry_views(lnode->Obj_0@);
    }
    fields.push(("labels".to_owned(), lnode));
    let node = JsonNode::Obj(fields);
    proof {
        crate::json::lemma_entry_views(node->Obj_0@);
        assert(crate::json::node_views(tag_items@) =~= Seq::new(
            m@.tags.len(),
            |i: int| crate::json::NodeView::Str(m@.tags[i]),
        ));
        assert(crate::json::entry_views(label_entries@) =~= Seq::new(
            m@.labels.len(),
            |i: int| (m@.labels[i].0, crate::json::NodeView::Str(m@.labels[i].1)),
        ));
        assert(crate::json::entry_views(node->Obj_0@) =~~= (spec_meta_node(m@))->Obj_0);
    }
    node
}

/// The wire object of a policy.
#[verifier::rlimit(60)]
fn policy_node(p: &Policy) -> (r: JsonNode)
    ensures
        r@ == spec_policy_node(p@),
{
    let mut fields: Vec<(String, JsonNode)> = Vec::new();
    fields.push(("id".to_owned(), JsonNode::Str(p.id.clone())));
    fields.push(("metadata".to_owned(), meta_node(&p.metadata)));
    fields.push(("enabled".to_owned(), JsonNode::Bool(p.enabled)));
    fields.push(("priority".to_owned(), JsonNode::Int(p.priority as i64)));
    let mut rule_items: Vec<JsonNode> = Vec::new();
    let mut i: usize = 0;
    while i < p.rules.len()
        invariant
            i <= p.rules@.len(),
            rule_items@.len() == i as int,
            forall|j: int|
                0 <= j < i as int ==> rule_items@[j].deep_view() == spec_rule_node(
                    #[trigger] p.rules.deep_view()[j],
                ),
        decreases p.rules@.len() - i,
    {
        let n = rule_node(&p.rules[i]);
        rule_items.push(n);
        i = i + 1;
    }
    proof {
        crate::json::lemma_node_views(rule_items@);
    }
    fields.push(("rules".to_owned(), JsonNode::Arr(rule_items)));
    let node = JsonNode::Obj(fields);
    proof {
        crate::json::lemma_entry_views(node->Obj_0@);
        assert(crate::json::node_views(rule_items@) =~= Seq::new(
            p@.rules.len(),
            |i: int| spec_rule_node(p@.rules[i]),
        ));
        assert(crate::json::entry_views(node->Obj_0@) =~~= (spec_policy_node(p@))->Obj_0);
    }
    node
}

impl PolicyDocument {
    /// The canonical wire tree of this document.
    pub fn to_node(&self) -> (r: JsonNode)
        ensures
            r@ == spec_doc_node(self@),
    {
        let mut fields: Vec<(String, JsonNode)> = Vec::new();
        fields.push(("apiVersion".to_owned(), JsonNode::Str(self.api_version.clone())));
        fields.push(("kind".to_owned(), JsonNode::Str(self.kind.clone())));
        let mut items: Vec<JsonNode> = Vec::new();
        let mut i: usize = 0;
        while i < self.policies.len()
            invariant
                i <= self.policies@.len(),
                items@.len() == i as int,
                forall|j: int|
                    0 <= j < i as int ==> items@[j].deep_view() == spec_policy_node(
                        #[trigger] self.policies.deep_view()[j],
                    ),
            decreases self.policies@.len() - i,
        {
            let n = policy_node(&self.policies[i]);
            items.push(n);
            i = i + 1;
        }
        proof {
            crate::json::lemma_node_views(items@);
        }
        fields.push(("policies".to_owned(), JsonNode::Arr(items)));
        let node = JsonNode::Obj(fields);
        proof {
            crate::json::lemma_entry_views(node->Obj_0@);
            assert(crate::json::node_views(items@) =~= Seq::new(
                self@.policies.len(),
                |i: int| spec_policy_node(self@.policies[i]),
            ));
            assert(crate::json::entry_views(node->Obj_0@) =~~= (spec_doc_node(self@))->Obj_0);
        }
        node
    }

    /// Serialize the document to its canonical JSON text.
    pub fn to_json(&self) -> (r: String)
        ensures
            r@ == crate::json::spec_ser_node(spec_doc_node(self@)),
    {
        let node = self.to_node();
        crate::json::node_to_string(&node)
    }

    /// Serialize the document to YAML, through its canonical JSON text.
    pub fn to_yaml(&self) -> (r: Result<String, Error>)
        ensures
            match crate::outside::json_as_yaml(crate::json::spec_ser_node(spec_doc_node(self@))) {
                Some(y) => r matches Ok(t) && t@ == y,
                None => r matches Err(e) && e is Yaml,
            },
    {
        let text = self.to_json();
        match crate::outside::json_to_yaml_text(text.as_str()) {
            Ok(y) => Ok(y),
            Err(m) => Err(Error::Yaml { message: m }),
        }
    }
}

} // verus!

verus! {


/// Two names differing (up to case) at one index are not equal up to case.
proof fn lemma_ci_differs(a: Seq<char>, b: Seq<char>, i: int)
    requires
        0 <= i < a.len(),
        i < b.len(),
        crate::strutil::spec_lower_u32(a[i]) != crate::strutil::spec_lower_u32(b[i]),
    ensures
        !crate::strutil::spec_ci_eq(a, b),
{
}

/// Two equal-up-to-case names denote the same thing; canonical names parse
/// back to their own operator.
proof fn lemma_operator_name_round(op: crate::condition::ConditionOperator)
    ensures
        spec_operator_of_name(spec_operator_name(op)) == Ok::<
            crate::condition::ConditionOperator,
            (),
        >(op),
{
    reveal_strlit("equals");
    reveal_strlit("not_equals");
    reveal_strlit("greater_than");
    reveal_strlit("greater_than_or_equals");
    reveal_strlit("less_than");
    reveal_strlit("less_than_or_equals");
    reveal_strlit("in");
    reveal_strlit("not_in");
    reveal_strlit("contains");
    reveal_strlit("starts_with");
    reveal_strlit("ends_with");
    reveal_strlit("matches");
    reveal_strlit("exists");
    reveal_strlit("not_exists");
    reveal_strlit("and");
    reveal_strlit("or");
    reveal_strlit("not");
    match op {
        crate::condition::ConditionOperator::NotIn => {
            lemma_ci_differs("not_in"@, "equals"@, 0);
        },
        crate::condition::ConditionOperator::Exists => {
            lemma_ci_differs("exists"@, "equals"@, 1);
            lemma_ci_differs("exists"@, "not_in"@, 0);
        },
        crate::condition::ConditionOperator::NotExists => {
            lemma_ci_differs("not_exists"@, "not_equals"@, 5);
        },
        crate::condition::ConditionOperator::EndsWith => {
            lemma_ci_differs("ends_with"@, "less_than"@, 0);
        },
        crate::condition::ConditionOperator::Or => {
            lemma_ci_differs("or"@, "in"@, 0);
        },
        crate::condition::ConditionOperator::Not => {
            lemma_ci_differs("not"@, "and"@, 0);
        },
        _ => {},
    }
}

/// Canonical action-type names parse back to their own type.
proof fn lemma_action_type_name_round(t: crate::action::ActionType)
    ensures
        spec_action_type_of_name(spec_action_type_name(t)) == Ok::<crate::action::ActionType, ()>(
            t,
        ),
{
    reveal_strlit("allow");
    reveal_strlit("deny");
    reveal_strlit("warn");
    reveal_strlit("modify");
    reveal_strlit("log");
    reveal_strlit("rate_limit");
    reveal_strlit("ratelimit");
    if t is Warn {
        lemma_ci_differs("warn"@, "deny"@, 0);
    }
}

/// Canonical decision names parse back to their own kind.
proof fn lemma_decision_name_round(d: crate::decision::DecisionType)
    ensures
        spec_decision_of_name(crate::decision::spec_decision_str(d)) == Ok::<
            crate::decision::DecisionType,
            (),
        >(d),
{
    reveal_strlit("allow");
    reveal_strlit("deny");
    reveal_strlit("warn");
    reveal_strlit("modify");
    if d is Warn {
        lemma_ci_differs("warn"@, "deny"@, 0);
    }
}

/// Canonical modification-kind names parse back to their own kind.
proof fn lemma_mod_type_name_round(t: crate::action::ModificationType)
    ensures
        spec_mod_type_of_name(spec_mod_type_name(t)) == Ok::<crate::action::ModificationType, ()>(
            t,
        ),
{
    reveal_strlit("set");
    reveal_strlit("remove");
    reveal_strlit("append");
    reveal_strlit("mask");
    reveal_strlit("truncate");
    if t is Append {
        lemma_ci_differs("append"@, "remove"@, 0);
    }
}

/// A condition value survives the trip through its JSON node.
proof fn lemma_value_round(v: crate::value::ValueView)
    ensures
        spec_value_of_node(crate::json::spec_value_node(v)) == Ok::<crate::value::ValueView, ()>(
            v,
        ),
    decreases v,
{
    match v {
        crate::value::ValueView::Arr(items) => {
            lemma_values_round(items);
        },
        _ => {},
    }
}

/// A list of condition values survives the trip through its JSON nodes.
proof fn lemma_values_round(items: Seq<crate::value::ValueView>)
    ensures
        spec_values_of_nodes(crate::json::spec_value_nodes(items)) == Ok::<
            Seq<crate::value::ValueView>,
            (),
        >(items),
    decreases items,
{
    crate::json::lemma_value_nodes(items);
    if items.len() == 0 {
        assert(crate::json::spec_value_nodes(items).len() == 0);
        assert(spec_values_of_nodes(crate::json::spec_value_nodes(items)) == Ok::<
            Seq<crate::value::ValueView>,
            (),
        >(Seq::empty()));
        assert(Seq::<crate::value::ValueView>::empty() =~= items);
    } else {
        let nodes = crate::json::spec_value_nodes(items);
        assert(nodes[0] == crate::json::spec_value_node(items[0]));
        lemma_value_round(items[0]);
        let rest = items.subrange(1, items.len() as int);
        lemma_values_round(rest);
        assert(nodes.subrange(1, nodes.len() as int) =~= crate::json::spec_value_nodes(rest)) by {
            crate::json::lemma_value_nodes(rest);
        }
        assert(spec_values_of_nodes(nodes.subrange(1, nodes.len() as int)) == Ok::<
            Seq<crate::value::ValueView>,
            (),
        >(rest));
        assert(spec_values_of_nodes(nodes) == Ok::<Seq<crate::value::ValueView>, ()>(
            seq![items[0]] + rest,
        ));
        assert(seq![items[0]] + rest =~= items);
        assert(Ok::<Seq<crate::value::ValueView>, ()>(seq![items[0]] + rest) == Ok::<
            Seq<crate::value::ValueView>,
            (),
        >(items));
    }
}

} // verus!

verus! {

/// Looking a key up in a list that starts with one binding either hits that
/// binding or moves past it.
proof fn lemma_lookup_cons(
    k0: Seq<char>,
    v0: crate::json::NodeView,
    rest: Seq<(Seq<char>, crate::json::NodeView)>,
    q: Seq<char>,
)
    ensures
        crate::alist::alist_lookup(seq![(k0, v0)] + rest, q) == if q == k0 {
            Some(v0)
        } else {
            crate::alist::alist_lookup(rest, q)
        },
{
    let s = seq![(k0, v0)] + rest;
    assert(s[0] == (k0, v0));
    assert(s.subrange(1, s.len() as int) =~= rest);
}

/// An empty first segment contributes nothing to a lookup.
proof fn lemma_lookup_empty_seg(
    rest: Seq<(Seq<char>, crate::json::NodeView)>,
    q: Seq<char>,
)
    ensures
        crate::alist::alist_lookup(
            Seq::<(Seq<char>, crate::json::NodeView)>::empty() + rest,
            q,
        ) == crate::alist::alist_lookup(rest, q),
{
    assert(Seq::<(Seq<char>, crate::json::NodeView)>::empty() + rest =~= rest);
}

/// The lookup outcome for each key of a built condition object.
proof fn lemma_cond_entries_lookup(c: crate::condition::CondView)
    ensures
        ({
            let es = (spec_cond_node(c))->Obj_0;
            &&& crate::alist::alist_lookup(es, "operator"@) == Some(
                crate::json::NodeView::Str(spec_operator_name(c.operator)),
            )
            &&& crate::alist::alist_lookup(es, "field"@) == (match c.field {
                Some(f) => Some(crate::json::NodeView::Str(f)),
                None => None,
            })
            &&& crate::alist::alist_lookup(es, "value"@) == (match c.value {
                Some(v) => Some(crate::json::spec_value_node(v)),
                None => None,
            })
            &&& crate::alist::alist_lookup(es, "conditions"@) == (if c.conditions.len() > 0 {
                Some(crate::json::NodeView::Arr(spec_cond_nodes(c.conditions)))
            } else {
                None
            })
        }),
{
    reveal_strlit("operator");
    reveal_strlit("field");
    reveal_strlit("value");
    reveal_strlit("conditions");
    let op_entry = ("operator"@, crate::json::NodeView::Str(spec_operator_name(c.operator)));
    let fseg: Seq<(Seq<char>, crate::json::NodeView)> = match c.field {
        Some(f) => seq![("field"@, crate::json::NodeView::Str(f))],
        None => Seq::empty(),
    };
    let vseg: Seq<(Seq<char>, crate::json::NodeView)> = match c.value {
        Some(v) => seq![("value"@, crate::json::spec_value_node(v))],
        None => Seq::empty(),
    };
    let cseg: Seq<(Seq<char>, crate::json::NodeView)> = if c.conditions.len() > 0 {
        seq![("conditions"@, crate::json::NodeView::Arr(spec_cond_nodes(c.conditions)))]
    } else {
        Seq::empty()
    };
    let es = (spec_cond_node(c))->Obj_0;
    assert(es =~= seq![op_entry] + (fseg + (vseg + cseg)));
    assert("operator"@.len() == 8 && "field"@.len() == 5 && "value"@.len() == 5
        && "conditions"@.len() == 10);
    assert("field"@[0] == 'f' && "value"@[0] == 'v');
    assert("field"@ != "operator"@ && "field"@ != "value"@ && "field"@ != "conditions"@);
    assert("value"@ != "operator"@ && "value"@ != "conditions"@);
    assert("conditions"@ != "operator"@);
    lemma_segments_lookup(op_entry, fseg, vseg, cseg, "operator"@);
    lemma_segments_lookup(op_entry, fseg, vseg, cseg, "field"@);
    lemma_segments_lookup(op_entry, fseg, vseg, cseg, "value"@);
    lemma_segments_lookup(op_entry, fseg, vseg, cseg, "conditions"@);
}

/// Step a lookup through a head binding and three optional segments.
proof fn lemma_segments_lookup(
    head: (Seq<char>, crate::json::NodeView),
    s1: Seq<(Seq<char>, crate::json::NodeView)>,
    s2: Seq<(Seq<char>, crate::json::NodeView)>,
    s3: Seq<(Seq<char>, crate::json::NodeView)>,
    q: Seq<char>,
)
    requires
        s1.len() <= 1,
        s2.len() <= 1,
        s3.len() <= 1,
    ensures
        crate::alist::alist_lookup(seq![head] + (s1 + (s2 + s3)), q) == if q == head.0 {
            Some(head.1)
        } else if s1.len() == 1 && s1[0].0 == q {
            Some(s1[0].1)
        } else if s2.len() == 1 && s2[0].0 == q {
            Some(s2[0].1)
        } else if s3.len() == 1 && s3[0].0 == q {
            Some(s3[0].1)
        } else {
            None
        },
{
    lemma_lookup_cons(head.0, head.1, s1 + (s2 + s3), q);
    if s1.len() == 1 {
        assert(s1 =~= seq![(s1[0].0, s1[0].1)]);
        lemma_lookup_cons(s1[0].0, s1[0].1, s2 + s3, q);
        assert(seq![(s1[0].0, s1[0].1)] + (s2 + s3) =~= s1 + (s2 + s3));
    } else {
        assert(s1 + (s2 + s3) =~= s2 + s3);
    }
    if s2.len() == 1 {
        assert(s2 =~= seq![(s2[0].0, s2[0].1)]);
        lemma_lookup_cons(s2[0].0, s2[0].1, s3, q);
        assert(seq![(s2[0].0, s2[0].1)] + s3 =~= s2 + s3);
    } else {
        assert(s2 + s3 =~= s3);
    }
    if s3.len() == 1 {
        assert(s3 =~= seq![(s3[0].0, s3[0].1)]);
        lemma_lookup_cons(s3[0].0, s3[0].1, Seq::empty(), q);
        assert(seq![(s3[0].0, s3[0].1)] + Seq::<(Seq<char>, crate::json::NodeView)>::empty()
            =~= s3);
    }
}

/// A condition survives the trip through its wire object.
proof fn lemma_condition_round(c: crate::condition::CondView)
    ensures
        spec_condition_of_node(spec_cond_node(c)) == Ok::<crate::condition::CondView, ()>(c),
    decreases c,
{
    lemma_cond_entries_lookup(c);
    lemma_operator_name_round(c.operator);
    match c.value {
        Some(v) => {
            lemma_value_round(v);
        },
        None => {},
    }
    if c.conditions.len() > 0 {
        lemma_conditions_round(c.conditions);
    } else {
        assert(Seq::<crate::condition::CondView>::empty() =~= c.conditions);
    }
    match spec_condition_of_node(spec_cond_node(c)) {
        Ok(c2) => {
            assert(c2 =~= c);
        },
        Err(_) => {},
    }
}

/// A condition list survives the trip through its wire objects.
proof fn lemma_conditions_round(cs: Seq<crate::condition::CondView>)
    ensures
        spec_conditions_of_nodes(spec_cond_nodes(cs)) == Ok::<
            Seq<crate::condition::CondView>,
            (),
        >(cs),
    decreases cs,
{
    if cs.len() == 0 {
        assert(spec_cond_nodes(cs).len() == 0);
        assert(Seq::<crate::condition::CondView>::empty() =~= cs);
    } else {
        let nodes = spec_cond_nodes(cs);
        assert(nodes == seq![spec_cond_node(cs[0])] + spec_cond_nodes(
            cs.subrange(1, cs.len() as int),
        ));
        assert(nodes[0] == spec_cond_node(cs[0]));
        assert(decreases_to!(cs => cs[0]));
        assert(decreases_to!(cs => cs.subrange(1, cs.len() as int)));
        lemma_condition_round(cs[0]);
        let rest = cs.subrange(1, cs.len() as int);
        lemma_conditions_round(rest);
        assert(nodes.subrange(1, nodes.len() as int) =~= spec_cond_nodes(rest));
        assert(spec_conditions_of_nodes(nodes) == Ok::<Seq<crate::condition::CondView>, ()>(
            seq![cs[0]] + rest,
        ));
        assert(seq![cs[0]] + rest =~= cs);
    }
}

} // verus!

verus! {

/// A prefix none of whose keys is the one sought contributes nothing to a
/// lookup.
proof fn lemma_lookup_prefix_miss(
    a: Seq<(Seq<char>, crate::json::NodeView)>,
    b: Seq<(Seq<char>, crate::json::NodeView)>,
    q: Seq<char>,
)
    requires
        forall|j: int| 0 <= j < a.len() ==> (#[trigger] a[j]).0 != q,
    ensures
        crate::alist::alist_lookup(a + b, q) == crate::alist::alist_lookup(b, q),
    decreases a.len(),
{
    if a.len() == 0 {
        assert(a + b =~= b);
    } else {
        let s = a + b;
        assert(s[0] == a[0]);
        let arest = a.subrange(1, a.len() as int);
        assert(s.subrange(1, s.len() as int) =~= arest + b);
        assert forall|j: int| 0 <= j < arest.len() implies (#[trigger] arest[j]).0 != q by {
            assert(arest[j] == a[j + 1]);
        }
        lemma_lookup_prefix_miss(arest, b, q);
    }
}

/// A lookup hits the head of the suffix that begins with its key.
proof fn lemma_lookup_hit(
    a: Seq<(Seq<char>, crate::json::NodeView)>,
    k: Seq<char>,
    v: crate::json::NodeView,
    b: Seq<(Seq<char>, crate::json::NodeView)>,
)
    requires
        forall|j: int| 0 <= j < a.len() ==> (#[trigger] a[j]).0 != k,
    ensures
        crate::alist::alist_lookup(a + (seq![(k, v)] + b), k) == Some(v),
{
    lemma_lookup_prefix_miss(a, seq![(k, v)] + b, k);
    lemma_lookup_cons(k, v, b, k);
}

/// The lookup outcome for each key of a built modification object.
proof fn lemma_mod_entries_lookup(m: crate::action::ModView)
    ensures
        ({
            let es = (spec_mod_node(m))->Obj_0;
            &&& crate::alist::alist_lookup(es, "type"@) == Some(
                crate::json::NodeView::Str(spec_mod_type_name(m.modification_type)),
            )
            &&& crate::alist::alist_lookup(es, "field"@) == Some(
                crate::json::NodeView::Str(m.field),
            )
            &&& crate::alist::alist_lookup(es, "value"@) == (match m.value {
                Some(v) => Some(crate::json::spec_value_node(v)),
                None => None,
            })
        }),
{
    reveal_strlit("type");
    reveal_strlit("field");
    reveal_strlit("value");
    assert("type"@.len() == 4 && "field"@.len() == 5 && "value"@.len() == 5);
    assert("field"@[0] == 'f' && "value"@[0] == 'v');
    let es = (spec_mod_node(m))->Obj_0;
    let tentry = ("type"@, crate::json::NodeView::Str(spec_mod_type_name(m.modification_type)));
    let fentry = ("field"@, crate::json::NodeView::Str(m.field));
    let vseg: Seq<(Seq<char>, crate::json::NodeView)> = match m.value {
        Some(v) => seq![("value"@, crate::json::spec_value_node(v))],
        None => Seq::empty(),
    };
    assert(es =~= Seq::empty() + (seq![tentry] + (seq![fentry] + vseg)));
    lemma_lookup_hit(Seq::empty(), tentry.0, tentry.1, seq![fentry] + vseg);
    assert(es =~= seq![tentry] + (seq![fentry] + vseg));
    lemma_lookup_hit(seq![tentry], fentry.0, fentry.1, vseg);
    match m.value {
        Some(v) => {
            assert(es =~= (seq![tentry] + seq![fentry]) + (seq![
                ("value"@, crate::json::spec_value_node(v)),
            ] + Seq::empty()));
            lemma_lookup_hit(
                seq![tentry] + seq![fentry],
                "value"@,
                crate::json::spec_value_node(v),
                Seq::empty(),
            );
        },
        None => {
            assert(es =~= (seq![tentry] + seq![fentry]) + Seq::empty());
            lemma_lookup_prefix_miss(seq![tentry] + seq![fentry], Seq::empty(), "value"@);
        },
    }
}

/// A modification survives the trip through its wire object.
proof fn lemma_mod_round(m: crate::action::ModView)
    ensures
        spec_mod_of_node(spec_mod_node(m)) == Ok::<crate::action::ModView, ()>(m),
{
    lemma_mod_entries_lookup(m);
    lemma_mod_type_name_round(m.modification_type);
    match m.value {
        Some(v) => {
            lemma_value_round(v);
        },
        None => {},
    }
    match spec_mod_of_node(spec_mod_node(m)) {
        Ok(m2) => {
            assert(m2 =~= m);
        },
        Err(_) => {},
    }
}

/// A modification list survives the trip through its wire objects.
proof fn lemma_mods_round(ms: Seq<crate::action::ModView>)
    ensures
        spec_mods_of_nodes(spec_mod_nodes(ms)) == Ok::<Seq<crate::action::ModView>, ()>(ms),
    decreases ms.len(),
{
    let nodes = spec_mod_nodes(ms);
    if ms.len() == 0 {
        assert(Seq::<crate::action::ModView>::empty() =~= ms);
    } else {
        assert(nodes[0] == spec_mod_node(ms[0]));
        lemma_mod_round(ms[0]);
        let rest = ms.subrange(1, ms.len() as int);
        lemma_mods_round(rest);
        assert(nodes.subrange(1, nodes.len() as int) =~= spec_mod_nodes(rest));
        assert(spec_mods_of_nodes(nodes) == Ok::<Seq<crate::action::ModView>, ()>(
            seq![ms[0]] + rest,
        ));
        assert(seq![ms[0]] + rest =~= ms);
    }
}

/// The value mapping survives the trip through its wire object.
proof fn lemma_value_entries_round(m: Seq<(Seq<char>, crate::value::ValueView)>)
    ensures
        spec_value_entries((spec_value_map_node(m))->Obj_0) == Ok::<
            Seq<(Seq<char>, crate::value::ValueView)>,
            (),
        >(m),
    decreases m.len(),
{
    let es = (spec_value_map_node(m))->Obj_0;
    if m.len() == 0 {
        assert(es.len() == 0);
        assert(Seq::<(Seq<char>, crate::value::ValueView)>::empty() =~= m);
    } else {
        assert(es[0] == (m[0].0, crate::json::spec_value_node(m[0].1)));
        lemma_value_round(m[0].1);
        let rest = m.subrange(1, m.len() as int);
        lemma_value_entries_round(rest);
        assert(es.subrange(1, es.len() as int) =~= (spec_value_map_node(rest))->Obj_0);
        assert(spec_value_entries(es) == Ok::<Seq<(Seq<char>, crate::value::ValueView)>, ()>(
            seq![(m[0].0, m[0].1)] + rest,
        ));
        assert(seq![(m[0].0, m[0].1)] + rest =~= m);
    }
}

/// The lookup outcome for each key of a built action object.
proof fn lemma_action_entries_lookup(a: crate::action::ActionView)
    ensures
        ({
            let es = (spec_action_node(a))->Obj_0;
            &&& crate::alist::alist_lookup(es, "type"@) == Some(
                crate::json::NodeView::Str(spec_action_type_name(a.action_type)),
            )
            &&& crate::alist::alist_lookup(es, "decision"@) == Some(
                crate::json::NodeView::Str(crate::decision::spec_decision_str(a.decision)),
            )
            &&& crate::alist::alist_lookup(es, "reason"@) == (match a.reason {
                Some(s) => Some(crate::json::NodeView::Str(s)),
                None => None,
            })
            &&& crate::alist::alist_lookup(es, "modifications"@) == (if a.modifications.len() > 0 {
                Some(crate::json::NodeView::Arr(spec_mod_nodes(a.modifications)))
            } else {
                None
            })
            &&& crate::alist::alist_lookup(es, "metadata"@) == (if a.metadata.len() > 0 {
                Some(spec_value_map_node(a.metadata))
            } else {
                None
            })
        }),
{
    reveal_strlit("type");
    reveal_strlit("decision");
    reveal_strlit("reason");
    reveal_strlit("modifications");
    reveal_strlit("metadata");
    assert("type"@.len() == 4 && "decision"@.len() == 8 && "reason"@.len() == 6
        && "modifications"@.len() == 13 && "metadata"@.len() == 8);
    assert("decision"@[0] == 'd' && "metadata"@[0] == 'm');
    let t = ("type"@, crate::json::NodeView::Str(spec_action_type_name(a.action_type)));
    let d = (
        "decision"@,
        crate::json::NodeView::Str(crate::decision::spec_decision_str(a.decision)),
    );
    let rseg: Seq<(Seq<char>, crate::json::NodeView)> = match a.reason {
        Some(s) => seq![("reason"@, crate::json::NodeView::Str(s))],
        None => Seq::empty(),
    };
    let mseg: Seq<(Seq<char>, crate::json::NodeView)> = if a.modifications.len() > 0 {
        seq![("modifications"@, crate::json::NodeView::Arr(spec_mod_nodes(a.modifications)))]
    } else {
        Seq::empty()
    };
    let dseg: Seq<(Seq<char>, crate::json::NodeView)> = if a.metadata.len() > 0 {
        seq![("metadata"@, spec_value_map_node(a.metadata))]
    } else {
        Seq::empty()
    };
    let es = (spec_action_node(a))->Obj_0;
    assert(es =~= Seq::empty() + (seq![t] + (seq![d] + (rseg + (mseg + dseg)))));
    lemma_lookup_hit(Seq::empty(), t.0, t.1, seq![d] + (rseg + (mseg + dseg)));
    assert(es =~= seq![t] + (seq![d] + (rseg + (mseg + dseg))));
    lemma_lookup_hit(seq![t], d.0, d.1, rseg + (mseg + dseg));
    let p2 = seq![t] + seq![d];
    match a.reason {
        Some(s) => {
            assert(es =~= p2 + (seq![("reason"@, crate::json::NodeView::Str(s))] + (mseg + dseg)));
            lemma_lookup_hit(p2, "reason"@, crate::json::NodeView::Str(s), mseg + dseg);
        },
        None => {},
    }
    let p3 = p2 + rseg;
    assert forall|j: int| 0 <= j < p3.len() implies (#[trigger] p3[j]).0 != "modifications"@ by {
        if j < 2 {
        } else {
            assert(p3[j] == rseg[j - 2]);
        }
    }
    if a.modifications.len() > 0 {
        assert(es =~= p3 + (seq![
            ("modifications"@, crate::json::NodeView::Arr(spec_mod_nodes(a.modifications))),
        ] + dseg));
        lemma_lookup_hit(
            p3,
            "modifications"@,
            crate::json::NodeView::Arr(spec_mod_nodes(a.modifications)),
            dseg,
        );
    }
    let p4 = p3 + mseg;
    assert forall|j: int| 0 <= j < p4.len() implies (#[trigger] p4[j]).0 != "metadata"@ by {
        if j < 2 {
        } else if j < p3.len() {
            assert(p4[j] == rseg[j - 2]);
        } else {
            assert(p4[j] == mseg[j - p3.len()]);
        }
    }
    if a.metadata.len() > 0 {
        assert(es =~= p4 + (seq![("metadata"@, spec_value_map_node(a.metadata))] + Seq::empty()));
        lemma_lookup_hit(p4, "metadata"@, spec_value_map_node(a.metadata), Seq::empty());
    } else {
        assert(es =~= p4 + Seq::empty());
        lemma_lookup_prefix_miss(p4, Seq::empty(), "metadata"@);
    }
    match a.reason {
        None => {
            assert forall|j: int| 0 <= j < es.len() implies (#[trigger] es[j]).0 != "reason"@ by {
                if j < 2 {
                } else if j - 2 < mseg.len() {
                    assert(es[j] == mseg[j - 2]);
                } else {
                    assert(es[j] == dseg[j - 2 - mseg.len()]);
                }
            }
            lemma_lookup_prefix_miss(es, Seq::empty(), "reason"@);
            assert(es + Seq::<(Seq<char>, crate::json::NodeView)>::empty() =~= es);
        },
        Some(_) => {},
    }
    if a.modifications.len() == 0 {
        assert forall|j: int|
            0 <= j < es.len() implies (#[trigger] es[j]).0 != "modifications"@ by {
            if j < 2 {
            } else if j - 2 < rseg.len() {
                assert(es[j] == rseg[j - 2]);
            } else {
                assert(es[j] == dseg[j - 2 - rseg.len()]);
            }
        }
        lemma_lookup_prefix_miss(es, Seq::empty(), "modifications"@);
        assert(es + Seq::<(Seq<char>, crate::json::NodeView)>::empty() =~= es);
    }
}

/// An action survives the trip through its wire object.
proof fn lemma_action_round(a: crate::action::ActionView)
    ensures
        spec_action_of_node(spec_action_node(a)) == Ok::<crate::action::ActionView, ()>(a),
{
    lemma_action_entries_lookup(a);
    lemma_action_type_name_round(a.action_type);
    lemma_decision_name_round(a.decision);
    if a.modifications.len() > 0 {
        lemma_mods_round(a.modifications);
    } else {
        assert(Seq::<crate::action::ModView>::empty() =~= a.modifications);
    }
    if a.metadata.len() > 0 {
        lemma_value_entries_round(a.metadata);
    } else {
        assert(Seq::<(Seq<char>, crate::value::ValueView)>::empty() =~= a.metadata);
    }
    match spec_action_of_node(spec_action_node(a)) {
        Ok(a2) => {
            assert(a2 =~= a);
        },
        Err(_) => {},
    }
}

} // verus!

verus! {

/// A string list survives the trip through its wire array.
proof fn lemma_strs_round(ss: Seq<Seq<char>>)
    ensures
        spec_strs_of_nodes(Seq::new(ss.len(), |i: int| crate::json::NodeView::Str(ss[i])))
            == Ok::<Seq<Seq<char>>, ()>(ss),
    decreases ss.len(),
{
    let nodes = Seq::new(ss.len(), |i: int| crate::json::NodeView::Str(ss[i]));
    if ss.len() == 0 {
        assert(Seq::<Seq<char>>::empty() =~= ss);
    } else {
        let rest = ss.subrange(1, ss.len() as int);
        lemma_strs_round(rest);
        assert(nodes.subrange(1, nodes.len() as int) =~= Seq::new(
            rest.len(),
            |i: int| crate::json::NodeView::Str(rest[i]),
        ));
        assert(spec_strs_of_nodes(nodes) == Ok::<Seq<Seq<char>>, ()>(seq![ss[0]] + rest));
        assert(seq![ss[0]] + rest =~= ss);
    }
}

/// A string mapping survives the trip through its wire object.
proof fn lemma_str_entries_round(m: Seq<(Seq<char>, Seq<char>)>)
    ensures
        spec_str_entries(
            Seq::new(m.len(), |i: int| (m[i].0, crate::json::NodeView::Str(m[i].1))),
        ) == Ok::<Seq<(Seq<char>, Seq<char>)>, ()>(m),
    decreases m.len(),
{
    let es = Seq::new(m.len(), |i: int| (m[i].0, crate::json::NodeView::Str(m[i].1)));
    if m.len() == 0 {
        assert(Seq::<(Seq<char>, Seq<char>)>::empty() =~= m);
    } else {
        let rest = m.subrange(1, m.len() as int);
        lemma_str_entries_round(rest);
        assert(es.subrange(1, es.len() as int) =~= Seq::new(
            rest.len(),
            |i: int| (rest[i].0, crate::json::NodeView::Str(rest[i].1)),
        ));
        assert(spec_str_entries(es) == Ok::<Seq<(Seq<char>, Seq<char>)>, ()>(
            seq![(m[0].0, m[0].1)] + rest,
        ));
        assert(seq![(m[0].0, m[0].1)] + rest =~= m);
    }
}

/// The lookup outcome for each key of a built metadata object.
#[verifier::rlimit(100)]
proof fn lemma_meta_entries_lookup(m: crate::policy::MetadataView)
    ensures
        ({
            let es = (spec_meta_node(m))->Obj_0;
            &&& crate::alist::alist_lookup(es, "name"@) == Some(
                crate::json::NodeView::Str(m.name),
            )
            &&& crate::alist::alist_lookup(es, "description"@) == (match m.description {
                Some(s) => Some(crate::json::NodeView::Str(s)),
                None => None,
            })
            &&& crate::alist::alist_lookup(es, "version"@) == Some(
                crate::json::NodeView::Str(m.version),
            )
            &&& crate::alist::alist_lookup(es, "namespace"@) == (match m.namespace {
                Some(s) => Some(crate::json::NodeView::Str(s)),
                None => None,
            })
            &&& crate::alist::alist_lookup(es, "tags"@) == Some(
                crate::json::NodeView::Arr(
                    Seq::new(m.tags.len(), |i: int| crate::json::NodeView::Str(m.tags[i])),
                ),
            )
            &&& crate::alist::alist_lookup(es, "createdBy"@) == (match m.created_by {
                Some(s) => Some(crate::json::NodeView::Str(s)),
                None => None,
            })
            &&& crate::alist::alist_lookup(es, "createdAt"@) == Some(
                crate::json::NodeView::Str(m.created_at),
            )
            &&& crate::alist::alist_lookup(es, "updatedAt"@) == Some(
                crate::json::NodeView::Str(m.updated_at),
            )
            &&& crate::alist::alist_lookup(es, "labels"@) == Some(
                crate::json::NodeView::Obj(
                    Seq::new(
                        m.labels.len(),
                        |i: int| (m.labels[i].0, crate::json::NodeView::Str(m.labels[i].1)),
                    ),
                ),
            )
        }),
{
    reveal_strlit("name");
    reveal_strlit("description");
    reveal_strlit("version");
    reveal_strlit("namespace");
    reveal_strlit("tags");
    reveal_strlit("createdBy");
    reveal_strlit("createdAt");
    reveal_strlit("updatedAt");
    reveal_strlit("labels");
    assert("name"@.len() == 4 && "description"@.len() == 11 && "version"@.len() == 7
        && "namespace"@.len() == 9 && "tags"@.len() == 4 && "createdBy"@.len() == 9
        && "createdAt"@.len() == 9 && "updatedAt"@.len() == 9 && "labels"@.len() == 6);
    assert("name"@[0] == 'n' && "tags"@[0] == 't');
    assert("namespace"@[0] == 'n' && "createdBy"@[0] == 'c' && "createdAt"@[0] == 'c'
        && "updatedAt"@[0] == 'u');
    assert("createdBy"@[7] == 'B' && "createdAt"@[7] == 'A');
    let e_name = ("name"@, crate::json::NodeView::Str(m.name));
    let dseg: Seq<(Seq<char>, crate::json::NodeView)> = match m.description {
        Some(s) => seq![("description"@, crate::json::NodeView::Str(s))],
        None => Seq::empty(),
    };
    let e_version = ("version"@, crate::json::NodeView::Str(m.version));
    let nseg: Seq<(Seq<char>, crate::json::NodeView)> = match m.namespace {
        Some(s) => seq![("namespace"@, crate::json::NodeView::Str(s))],
        None => Seq::empty(),
    };
    let e_tags = (
        "tags"@,
        crate::json::NodeView::Arr(
            Seq::new(m.tags.len(), |i: int| crate::json::NodeView::Str(m.tags[i])),
        ),
    );
    let cseg: Seq<(Seq<char>, crate::json::NodeView)> = match m.created_by {
        Some(s) => seq![("createdBy"@, crate::json::NodeView::Str(s))],
        None => Seq::empty(),
    };
    let e_created = ("createdAt"@, crate::json::NodeView::Str(m.created_at));
    let e_updated = ("updatedAt"@, crate::json::NodeView::Str(m.updated_at));
    let e_labels = (
        "labels"@,
        crate::json::NodeView::Obj(
            Seq::new(
                m.labels.len(),
                |i: int| (m.labels[i].0, crate::json::NodeView::Str(m.labels[i].1)),
            ),
        ),
    );
    let es = (spec_meta_node(m))->Obj_0;
    let tail9: Seq<(Seq<char>, crate::json::NodeView)> = seq![e_created, e_updated, e_labels];
    assert(es =~= Seq::empty() + (seq![e_name] + (dseg + (seq![e_version] + (nseg + (seq![e_tags]
        + (cseg + (seq![e_created] + (seq![e_updated] + (seq![e_labels] + Seq::empty()))))))))));
    lemma_lookup_hit(
        Seq::empty(),
        e_name.0,
        e_name.1,
        dseg + (seq![e_version] + (nseg + (seq![e_tags] + (cseg + (seq![e_created] + (seq![
            e_updated,
        ] + (seq![e_labels] + Seq::empty()))))))),
    );
    let p1 = seq![e_name];
    match m.description {
        Some(s) => {
            assert(es =~= p1 + (seq![("description"@, crate::json::NodeView::Str(s))] + (seq![
                e_version,
            ] + (nseg + (seq![e_tags] + (cseg + (seq![e_created] + (seq![e_updated] + (seq![
                e_labels,
            ] + Seq::empty())))))))));
            lemma_lookup_hit(
                p1,
                "description"@,
                crate::json::NodeView::Str(s),
                seq![e_version] + (nseg + (seq![e_tags] + (cseg + (seq![e_created] + (seq![
                    e_updated,
                ] + (seq![e_labels] + Seq::empty())))))),
            );
        },
        None => {
            assert forall|j: int|
                0 <= j < es.len() implies (#[trigger] es[j]).0 != "description"@ by {
                lemma_meta_keys(m, es, j);
            }
            lemma_lookup_prefix_miss(es, Seq::empty(), "description"@);
            assert(es + Seq::<(Seq<char>, crate::json::NodeView)>::empty() =~= es);
        },
    }
    let p2 = p1 + dseg;
    assert forall|j: int| 0 <= j < p2.len() implies (#[trigger] p2[j]).0 != "version"@ by {
        if j >= 1 {
            assert(p2[j] == dseg[j - 1]);
        }
    }
    assert(es =~= p2 + (seq![e_version] + (nseg + (seq![e_tags] + (cseg + (seq![e_created]
        + (seq![e_updated] + (seq![e_labels] + Seq::empty()))))))));
    lemma_lookup_hit(
        p2,
        e_version.0,
        e_version.1,
        nseg + (seq![e_tags] + (cseg + (seq![e_created] + (seq![e_updated] + (seq![e_labels]
            + Seq::empty()))))),
    );
    let p3 = p2 + seq![e_version];
    assert forall|j: int| 0 <= j < p3.len() implies (#[trigger] p3[j]).0 != "namespace"@ by {
        if 1 <= j < 1 + dseg.len() {
            assert(p3[j] == dseg[j - 1]);
        }
    }
    match m.namespace {
        Some(s) => {
            assert(es =~= p3 + (seq![("namespace"@, crate::json::NodeView::Str(s))] + (seq![
                e_tags,
            ] + (cseg + (seq![e_created] + (seq![e_updated] + (seq![e_labels] + Seq::empty())))))));
            lemma_lookup_hit(
                p3,
                "namespace"@,
                crate::json::NodeView::Str(s),
                seq![e_tags] + (cseg + (seq![e_created] + (seq![e_updated] + (seq![e_labels]
                    + Seq::empty())))),
            );
        },
        None => {
            assert forall|j: int|
                0 <= j < es.len() implies (#[trigger] es[j]).0 != "namespace"@ by {
                lemma_meta_keys(m, es, j);
            }
            lemma_lookup_prefix_miss(es, Seq::empty(), "namespace"@);
            assert(es + Seq::<(Seq<char>, crate::json::NodeView)>::empty() =~= es);
        },
    }
    let p4 = p3 + nseg;
    assert forall|j: int| 0 <= j < p4.len() implies (#[trigger] p4[j]).0 != "tags"@ by {
        if 1 <= j < 1 + dseg.len() {
            assert(p4[j] == dseg[j - 1]);
        } else if j >= p3.len() {
            assert(p4[j] == nseg[j - p3.len()]);
        }
    }
    assert(es =~= p4 + (seq![e_tags] + (cseg + (seq![e_created] + (seq![e_updated] + (seq![
        e_labels,
    ] + Seq::empty()))))));
    lemma_lookup_hit(
        p4,
        e_tags.0,
        e_tags.1,
        cseg + (seq![e_created] + (seq![e_updated] + (seq![e_labels] + Seq::empty()))),
    );
    let p5 = p4 + seq![e_tags];
    assert forall|j: int| 0 <= j < p5.len() implies (#[trigger] p5[j]).0 != "createdBy"@ by {
        if 1 <= j < 1 + dseg.len() {
            assert(p5[j] == dseg[j - 1]);
        } else if p3.len() <= j < p3.len() + nseg.len() {
            assert(p5[j] == nseg[j - p3.len()]);
        }
    }
    match m.created_by {
        Some(s) => {
            assert(es =~= p5 + (seq![("createdBy"@, crate::json::NodeView::Str(s))] + (seq![
                e_created,
            ] + (seq![e_updated] + (seq![e_labels] + Seq::empty())))));
            lemma_lookup_hit(
                p5,
                "createdBy"@,
                crate::json::NodeView::Str(s),
                seq![e_created] + (seq![e_updated] + (seq![e_labels] + Seq::empty())),
            );
        },
        None => {
            assert forall|j: int|
                0 <= j < es.len() implies (#[trigger] es[j]).0 != "createdBy"@ by {
                lemma_meta_keys(m, es, j);
            }
            lemma_lookup_prefix_miss(es, Seq::empty(), "createdBy"@);
            assert(es + Seq::<(Seq<char>, crate::json::NodeView)>::empty() =~= es);
        },
    }
    let p6 = p5 + cseg;
    assert forall|j: int| 0 <= j < p6.len() implies (#[trigger] p6[j]).0 != "createdAt"@ by {
        if 1 <= j < 1 + dseg.len() {
            assert(p6[j] == dseg[j - 1]);
        } else if p3.len() <= j < p3.len() + nseg.len() {
            assert(p6[j] == nseg[j - p3.len()]);
        } else if j >= p5.len() {
            assert(p6[j] == cseg[j - p5.len()]);
        }
    }
    assert(es =~= p6 + (seq![e_created] + (seq![e_updated] + (seq![e_labels] + Seq::empty()))));
    lemma_lookup_hit(
        p6,
        e_created.0,
        e_created.1,
        seq![e_updated] + (seq![e_labels] + Seq::empty()),
    );
    let p7 = p6 + seq![e_created];
    assert forall|j: int| 0 <= j < p7.len() implies (#[trigger] p7[j]).0 != "updatedAt"@ by {
        if 1 <= j < 1 + dseg.len() {
            assert(p7[j] == dseg[j - 1]);
        } else if p3.len() <= j < p3.len() + nseg.len() {
            assert(p7[j] == nseg[j - p3.len()]);
        } else if p5.len() <= j < p5.len() + cseg.len() {
            assert(p7[j] == cseg[j - p5.len()]);
        }
    }
    assert(es =~= p7 + (seq![e_updated] + (seq![e_labels] + Seq::empty())));
    lemma_lookup_hit(p7, e_updated.0, e_updated.1, seq![e_labels] + Seq::empty());
    let p8 = p7 + seq![e_updated];
    assert forall|j: int| 0 <= j < p8.len() implies (#[trigger] p8[j]).0 != "labels"@ by {
        if 1 <= j < 1 + dseg.len() {
            assert(p8[j] == dseg[j - 1]);
        } else if p3.len() <= j < p3.len() + nseg.len() {
            assert(p8[j] == nseg[j - p3.len()]);
        } else if p5.len() <= j < p5.len() + cseg.len() {
            assert(p8[j] == cseg[j - p5.len()]);
        }
    }
    assert(es =~= p8 + (seq![e_labels] + Seq::empty()));
    lemma_lookup_hit(p8, e_labels.0, e_labels.1, Seq::empty());
}

/// Every key of a built metadata object is one of the nine field names.
proof fn lemma_meta_keys(
    m: crate::policy::MetadataView,
    es: Seq<(Seq<char>, crate::json::NodeView)>,
    j: int,
)
    requires
        es == (spec_meta_node(m))->Obj_0,
        0 <= j < es.len(),
    ensures
        es[j].0 == "name"@ || es[j].0 == "description"@ || es[j].0 == "version"@ || es[j].0
            == "namespace"@ || es[j].0 == "tags"@ || es[j].0 == "createdBy"@ || es[j].0
            == "createdAt"@ || es[j].0 == "updatedAt"@ || es[j].0 == "labels"@,
        m.description is None ==> es[j].0 != "description"@,
        m.namespace is None ==> es[j].0 != "namespace"@,
        m.created_by is None ==> es[j].0 != "createdBy"@,
{
    reveal_strlit("name");
    reveal_strlit("description");
    reveal_strlit("version");
    reveal_strlit("namespace");
    reveal_strlit("tags");
    reveal_strlit("createdBy");
    reveal_strlit("createdAt");
    reveal_strlit("updatedAt");
    reveal_strlit("labels");
    assert("name"@.len() == 4 && "description"@.len() == 11 && "version"@.len() == 7
        && "namespace"@.len() == 9 && "tags"@.len() == 4 && "createdBy"@.len() == 9
        && "createdAt"@.len() == 9 && "updatedAt"@.len() == 9 && "labels"@.len() == 6);
    assert("namespace"@[0] == 'n' && "createdBy"@[0] == 'c' && "createdAt"@[0] == 'c'
        && "updatedAt"@[0] == 'u');
    assert("createdBy"@[7] == 'B' && "createdAt"@[7] == 'A');
}

} // verus!

verus! {

/// Metadata survives the trip through its wire object.
proof fn lemma_metadata_round(m: crate::policy::MetadataView)
    ensures
        spec_metadata_of_node(spec_meta_node(m)) == Ok::<crate::policy::MetadataView, ()>(m),
{
    lemma_meta_entries_lookup(m);
    lemma_strs_round(m.tags);
    lemma_str_entries_round(m.labels);
    reveal_strlit("createdAt");
    reveal_strlit("updatedAt");
    reveal_strlit("createdBy");
    reveal_strlit("created_at");
    reveal_strlit("updated_at");
    reveal_strlit("created_by");
    reveal_strlit("name");
    reveal_strlit("description");
    reveal_strlit("version");
    reveal_strlit("namespace");
    reveal_strlit("tags");
    reveal_strlit("labels");
    assert("created_at"@.len() == 10 && "updated_at"@.len() == 10 && "created_by"@.len() == 10);
    assert("name"@.len() == 4 && "description"@.len() == 11 && "version"@.len() == 7
        && "namespace"@.len() == 9 && "tags"@.len() == 4 && "createdBy"@.len() == 9
        && "createdAt"@.len() == 9 && "updatedAt"@.len() == 9 && "labels"@.len() == 6);
    let es = (spec_meta_node(m))->Obj_0;
    assert forall|j: int| 0 <= j < es.len() implies (#[trigger] es[j]).0 != "created_at"@
        && es[j].0 != "updated_at"@ && es[j].0 != "created_by"@ by {
        lemma_meta_keys(m, es, j);
    }
    lemma_lookup_prefix_miss(es, Seq::empty(), "created_at"@);
    lemma_lookup_prefix_miss(es, Seq::empty(), "updated_at"@);
    lemma_lookup_prefix_miss(es, Seq::empty(), "created_by"@);
    assert(es + Seq::<(Seq<char>, crate::json::NodeView)>::empty() =~= es);
    match spec_metadata_of_node(spec_meta_node(m)) {
        Ok(m2) => {
            assert(m2 =~= m);
        },
        Err(_) => {},
    }
}

/// The lookup outcome for each key of a built rule object.
#[verifier::rlimit(100)]
proof fn lemma_rule_entries_lookup(r: RuleView)
    ensures
        ({
            let es = (spec_rule_node(r))->Obj_0;
            &&& crate::alist::alist_lookup(es, "id"@) == Some(crate::json::NodeView::Str(r.id))
            &&& crate::alist::alist_lookup(es, "name"@) == Some(
                crate::json::NodeView::Str(r.name),
            )
            &&& crate::alist::alist_lookup(es, "description"@) == (match r.description {
                Some(s) => Some(crate::json::NodeView::Str(s)),
                None => None,
            })
            &&& crate::alist::alist_lookup(es, "enabled"@) == Some(
                crate::json::NodeView::Bool(r.enabled),
            )
            &&& crate::alist::alist_lookup(es, "priority"@) == Some(
                crate::json::NodeView::Int(r.priority),
            )
            &&& crate::alist::alist_lookup(es, "condition"@) == Some(spec_cond_node(r.condition))
            &&& crate::alist::alist_lookup(es, "action"@) == Some(spec_action_node(r.action))
        }),
{
    reveal_strlit("id");
    reveal_strlit("name");
    reveal_strlit("description");
    reveal_strlit("enabled");
    reveal_strlit("priority");
    reveal_strlit("condition");
    reveal_strlit("action");
    assert("id"@.len() == 2 && "name"@.len() == 4 && "description"@.len() == 11
        && "enabled"@.len() == 7 && "priority"@.len() == 8 && "condition"@.len() == 9
        && "action"@.len() == 6);
    assert("enabled"@[0] == 'e');
    let e_id = ("id"@, crate::json::NodeView::Str(r.id));
    let e_name = ("name"@, crate::json::NodeView::Str(r.name));
    let dseg: Seq<(Seq<char>, crate::json::NodeView)> = match r.description {
        Some(s) => seq![("description"@, crate::json::NodeView::Str(s))],
        None => Seq::empty(),
    };
    let e_enabled = ("enabled"@, crate::json::NodeView::Bool(r.enabled));
    let e_priority = ("priority"@, crate::json::NodeView::Int(r.priority));
    let e_condition = ("condition"@, spec_cond_node(r.condition));
    let e_action = ("action"@, spec_action_node(r.action));
    let es = (spec_rule_node(r))->Obj_0;
    assert(es =~= Seq::empty() + (seq![e_id] + (seq![e_name] + (dseg + (seq![e_enabled] + (seq![
        e_priority,
    ] + (seq![e_condition] + (seq![e_action] + Seq::empty()))))))));
    lemma_lookup_hit(
        Seq::empty(),
        e_id.0,
        e_id.1,
        seq![e_name] + (dseg + (seq![e_enabled] + (seq![e_priority] + (seq![e_condition] + (seq![
            e_action,
        ] + Seq::empty()))))),
    );
    let p1 = seq![e_id];
    assert(es =~= p1 + (seq![e_name] + (dseg + (seq![e_enabled] + (seq![e_priority] + (seq![
        e_condition,
    ] + (seq![e_action] + Seq::empty())))))));
    lemma_lookup_hit(
        p1,
        e_name.0,
        e_name.1,
        dseg + (seq![e_enabled] + (seq![e_priority] + (seq![e_condition] + (seq![e_action]
            + Seq::empty())))),
    );
    let p2 = p1 + seq![e_name];
    match r.description {
        Some(s) => {
            assert(es =~= p2 + (seq![("description"@, crate::json::NodeView::Str(s))] + (seq![
                e_enabled,
            ] + (seq![e_priority] + (seq![e_condition] + (seq![e_action] + Seq::empty()))))));
            lemma_lookup_hit(
                p2,
                "description"@,
                crate::json::NodeView::Str(s),
                seq![e_enabled] + (seq![e_priority] + (seq![e_condition] + (seq![e_action]
                    + Seq::empty()))),
            );
        },
        None => {
            assert forall|j: int|
                0 <= j < es.len() implies (#[trigger] es[j]).0 != "description"@ by {}
            lemma_lookup_prefix_miss(es, Seq::empty(), "description"@);
            assert(es + Seq::<(Seq<char>, crate::json::NodeView)>::empty() =~= es);
        },
    }
    let p3 = p2 + dseg;
    assert forall|j: int| 0 <= j < p3.len() implies (#[trigger] p3[j]).0 != "enabled"@ by {
        if j >= 2 {
            assert(p3[j] == dseg[j - 2]);
        }
    }
    assert(es =~= p3 + (seq![e_enabled] + (seq![e_priority] + (seq![e_condition] + (seq![e_action]
        + Seq::empty())))));
    lemma_lookup_hit(
        p3,
        e_enabled.0,
        e_enabled.1,
        seq![e_priority] + (seq![e_condition] + (seq![e_action] + Seq::empty())),
    );
    let p4 = p3 + seq![e_enabled];
    assert forall|j: int| 0 <= j < p4.len() implies (#[trigger] p4[j]).0 != "priority"@ by {
        if 2 <= j < 2 + dseg.len() {
            assert(p4[j] == dseg[j - 2]);
        }
    }
    assert(es =~= p4 + (seq![e_priority] + (seq![e_condition] + (seq![e_action] + Seq::empty()))));
    lemma_lookup_hit(
        p4,
        e_priority.0,
        e_priority.1,
        seq![e_condition] + (seq![e_action] + Seq::empty()),
    );
    let p5 = p4 + seq![e_priority];
    assert forall|j: int| 0 <= j < p5.len() implies (#[trigger] p5[j]).0 != "condition"@ by {
        if 2 <= j < 2 + dseg.len() {
            assert(p5[j] == dseg[j - 2]);
        }
    }
    assert(es =~= p5 + (seq![e_condition] + (seq![e_action] + Seq::empty())));
    lemma_lookup_hit(p5, e_condition.0, e_condition.1, seq![e_action] + Seq::empty());
    let p6 = p5 + seq![e_condition];
    assert forall|j: int| 0 <= j < p6.len() implies (#[trigger] p6[j]).0 != "action"@ by {
        if 2 <= j < 2 + dseg.len() {
            assert(p6[j] == dseg[j - 2]);
        }
    }
    assert(es =~= p6 + (seq![e_action] + Seq::empty()));
    lemma_lookup_hit(p6, e_action.0, e_action.1, Seq::empty());
}

/// A rule with a 32-bit priority survives the trip through its wire object.
proof fn lemma_rule_round(r: RuleView)
    requires
        i32::MIN <= r.priority <= i32::MAX,
    ensures
        spec_rule_of_node(spec_rule_node(r)) == Ok::<RuleView, ()>(r),
{
    lemma_rule_entries_lookup(r);
    lemma_condition_round(r.condition);
    lemma_action_round(r.action);
    match spec_rule_of_node(spec_rule_node(r)) {
        Ok(r2) => {
            assert(r2 =~= r);
        },
        Err(_) => {},
    }
}

} // verus!

verus! {

/// Whether every priority in the document fits a 32-bit signed integer, as
/// every document built from the executable types does.
pub open spec fn spec_doc_in_range(d: DocumentView) -> bool {
    forall|i: int|
        0 <= i < d.policies.len() ==> {
            let p = #[trigger] d.policies[i];
            &&& i32::MIN <= p.priority <= i32::MAX
            &&& forall|j: int|
                0 <= j < p.rules.len() ==> i32::MIN <= (#[trigger] p.rules[j]).priority
                    <= i32::MAX
        }
}

/// The lookup outcome for each key of a built policy object.
#[verifier::rlimit(100)]
proof fn lemma_policy_entries_lookup(p: PolicyView)
    ensures
        ({
            let es = (spec_policy_node(p))->Obj_0;
            &&& crate::alist::alist_lookup(es, "id"@) == Some(crate::json::NodeView::Str(p.id))
            &&& crate::alist::alist_lookup(es, "metadata"@) == Some(spec_meta_node(p.metadata))
            &&& crate::alist::alist_lookup(es, "enabled"@) == Some(
                crate::json::NodeView::Bool(p.enabled),
            )
            &&& crate::alist::alist_lookup(es, "priority"@) == Some(
                crate::json::NodeView::Int(p.priority),
            )
            &&& crate::alist::alist_lookup(es, "rules"@) == Some(
                crate::json::NodeView::Arr(
                    Seq::new(p.rules.len(), |i: int| spec_rule_node(p.rules[i])),
                ),
            )
        }),
{
    reveal_strlit("id");
    reveal_strlit("metadata");
    reveal_strlit("enabled");
    reveal_strlit("priority");
    reveal_strlit("rules");
    assert("id"@.len() == 2 && "metadata"@.len() == 8 && "enabled"@.len() == 7
        && "priority"@.len() == 8 && "rules"@.len() == 5);
    assert("metadata"@[0] == 'm' && "priority"@[0] == 'p');
    let e_id = ("id"@, crate::json::NodeView::Str(p.id));
    let e_meta = ("metadata"@, spec_meta_node(p.metadata));
    let e_enabled = ("enabled"@, crate::json::NodeView::Bool(p.enabled));
    let e_priority = ("priority"@, crate::json::NodeView::Int(p.priority));
    let e_rules = (
        "rules"@,
        crate::json::NodeView::Arr(Seq::new(p.rules.len(), |i: int| spec_rule_node(p.rules[i]))),
    );
    let es = (spec_policy_node(p))->Obj_0;
    assert(es =~= Seq::empty() + (seq![e_id] + (seq![e_meta] + (seq![e_enabled] + (seq![
        e_priority,
    ] + (seq![e_rules] + Seq::empty()))))));
    lemma_lookup_hit(
        Seq::empty(),
        e_id.0,
        e_id.1,
        seq![e_meta] + (seq![e_enabled] + (seq![e_priority] + (seq![e_rules] + Seq::empty()))),
    );
    let p1 = seq![e_id];
    assert(es =~= p1 + (seq![e_meta] + (seq![e_enabled] + (seq![e_priority] + (seq![e_rules]
        + Seq::empty())))));
    lemma_lookup_hit(
        p1,
        e_meta.0,
        e_meta.1,
        seq![e_enabled] + (seq![e_priority] + (seq![e_rules] + Seq::empty())),
    );
    let p2 = p1 + seq![e_meta];
    assert(es =~= p2 + (seq![e_enabled] + (seq![e_priority] + (seq![e_rules] + Seq::empty()))));
    lemma_lookup_hit(p2, e_enabled.0, e_enabled.1, seq![e_priority] + (seq![e_rules] + Seq::empty()));
    let p3 = p2 + seq![e_enabled];
    assert(es =~= p3 + (seq![e_priority] + (seq![e_rules] + Seq::empty())));
    lemma_lookup_hit(p3, e_priority.0, e_priority.1, seq![e_rules] + Seq::empty());
    let p4 = p3 + seq![e_priority];
    assert(es =~= p4 + (seq![e_rules] + Seq::empty()));
    lemma_lookup_hit(p4, e_rules.0, e_rules.1, Seq::empty());
}

/// A rule list whose priorities fit survives the trip through its wire
/// objects.
proof fn lemma_rules_round(rs: Seq<RuleView>)
    requires
        forall|j: int| 0 <= j < rs.len() ==> i32::MIN <= (#[trigger] rs[j]).priority <= i32::MAX,
    ensures
        spec_rules_of_nodes(Seq::new(rs.len(), |i: int| spec_rule_node(rs[i]))) == Ok::<
            Seq<RuleView>,
            (),
        >(rs),
    decreases rs.len(),
{
    let nodes = Seq::new(rs.len(), |i: int| spec_rule_node(rs[i]));
    if rs.len() == 0 {
        assert(Seq::<RuleView>::empty() =~= rs);
    } else {
        lemma_rule_round(rs[0]);
        let rest = rs.subrange(1, rs.len() as int);
        lemma_rules_round(rest);
        assert(nodes.subrange(1, nodes.len() as int) =~= Seq::new(
            rest.len(),
            |i: int| spec_rule_node(rest[i]),
        ));
        assert(spec_rules_of_nodes(nodes) == Ok::<Seq<RuleView>, ()>(seq![rs[0]] + rest));
        assert(seq![rs[0]] + rest =~= rs);
    }
}

/// A policy whose priorities fit survives the trip through its wire object.
proof fn lemma_policy_round(p: PolicyView)
    requires
        i32::MIN <= p.priority <= i32::MAX,
        forall|j: int| 0 <= j < p.rules.len() ==> i32::MIN <= (#[trigger] p.rules[j]).priority
            <= i32::MAX,
    ensures
        spec_policy_of_node(spec_policy_node(p)) == Ok::<PolicyView, ()>(p),
{
    lemma_policy_entries_lookup(p);
    lemma_metadata_round(p.metadata);
    lemma_rules_round(p.rules);
    match spec_policy_of_node(spec_policy_node(p)) {
        Ok(p2) => {
            assert(p2 =~= p);
        },
        Err(_) => {},
    }
}

/// A policy list whose priorities fit survives the trip.
proof fn lemma_policies_round(ps: Seq<PolicyView>)
    requires
        forall|i: int|
            0 <= i < ps.len() ==> {
                let p = #[trigger] ps[i];
                &&& i32::MIN <= p.priority <= i32::MAX
                &&& forall|j: int|
                    0 <= j < p.rules.len() ==> i32::MIN <= (#[trigger] p.rules[j]).priority
                        <= i32::MAX
            },
    ensures
        spec_policies_of_nodes(Seq::new(ps.len(), |i: int| spec_policy_node(ps[i]))) == Ok::<
            Seq<PolicyView>,
            (),
        >(ps),
    decreases ps.len(),
{
    let nodes = Seq::new(ps.len(), |i: int| spec_policy_node(ps[i]));
    if ps.len() == 0 {
        assert(Seq::<PolicyView>::empty() =~= ps);
    } else {
        lemma_policy_round(ps[0]);
        let rest = ps.subrange(1, ps.len() as int);
        lemma_policies_round(rest);
        assert(nodes.subrange(1, nodes.len() as int) =~= Seq::new(
            rest.len(),
            |i: int| spec_policy_node(rest[i]),
        ));
        assert(spec_policies_of_nodes(nodes) == Ok::<Seq<PolicyView>, ()>(seq![ps[0]] + rest));
        assert(seq![ps[0]] + rest =~= ps);
    }
}

/// Serializing a document to its wire tree and mapping the tree back yields
/// the document unchanged: the round trip loses nothing, whichever of the two
/// text forms carries the tree.
pub proof fn lemma_document_round_trip(d: DocumentView)
    requires
        spec_doc_in_range(d),
    ensures
        spec_document_of_node(spec_doc_node(d)) == Ok::<DocumentView, ()>(d),
{
    reveal_strlit("apiVersion");
    reveal_strlit("api_version");
    reveal_strlit("kind");
    reveal_strlit("policies");
    assert("apiVersion"@.len() == 10 && "kind"@.len() == 4 && "policies"@.len() == 8);
    let e_api = ("apiVersion"@, crate::json::NodeView::Str(d.api_version));
    let e_kind = ("kind"@, crate::json::NodeView::Str(d.kind));
    let e_policies = (
        "policies"@,
        crate::json::NodeView::Arr(
            Seq::new(d.policies.len(), |i: int| spec_policy_node(d.policies[i])),
        ),
    );
    let es = (spec_doc_node(d))->Obj_0;
    assert(es =~= Seq::empty() + (seq![e_api] + (seq![e_kind] + (seq![e_policies]
        + Seq::empty()))));
    lemma_lookup_hit(Seq::empty(), e_api.0, e_api.1, seq![e_kind] + (seq![e_policies]
        + Seq::empty()));
    let p1 = seq![e_api];
    assert(es =~= p1 + (seq![e_kind] + (seq![e_policies] + Seq::empty())));
    lemma_lookup_hit(p1, e_kind.0, e_kind.1, seq![e_policies] + Seq::empty());
    let p2 = p1 + seq![e_kind];
    assert(es =~= p2 + (seq![e_policies] + Seq::empty()));
    lemma_lookup_hit(p2, e_policies.0, e_policies.1, Seq::empty());
    lemma_policies_round(d.policies);
    match spec_document_of_node(spec_doc_node(d)) {
        Ok(d2) => {
            assert(d2 =~= d);
        },
        Err(_) => {},
    }
}

} // verus!

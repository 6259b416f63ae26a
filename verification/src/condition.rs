//! Policy conditions: a recursive boolean tree over context fields.

use vstd::prelude::*;
use crate::value::{ConditionValue, ValueView, value_views, lemma_value_views};
use crate::error::Error;

verus! {

broadcast use
    vstd::seq::axiom_seq_index_decreases,
    vstd::std_specs::vec::axiom_vec_index_decreases,
    vstd::std_specs::vec::axiom_vec_decreases_to_view,
;

/// Operators for condition evaluation.
#[derive(Debug, Clone, Copy, PartialEq, Eq, Structural)]
pub enum ConditionOperator {
    /// Equality check
    Equals,
    /// Inequality check
    NotEquals,
    /// Greater than comparison
    GreaterThan,
    /// Greater than or equal comparison
    GreaterThanOrEquals,
    /// Less than comparison
    LessThan,
    /// Less than or equal comparison
    LessThanOrEquals,
    /// Value is in a list
    In,
    /// Value is not in a list
    NotIn,
    /// String/array contains value
    Contains,
    /// String starts with value
    StartsWith,
    /// String ends with value
    EndsWith,
    /// Regex pattern match
    Matches,
    /// Field exists
    Exists,
    /// Field does not exist
    NotExists,
    /// Logical AND
    And,
    /// Logical OR
    Or,
    /// Logical NOT
    Not,
}

/// Whether the operator composes child conditions rather than reading a field.
pub open spec fn spec_is_composite(op: ConditionOperator) -> bool {
    op is And || op is Or || op is Not
}

/// Whether the operator is a presence test, needing a field but no literal.
pub open spec fn spec_is_presence(op: ConditionOperator) -> bool {
    op is Exists || op is NotExists
}

/// A condition that can be evaluated against a context.
#[derive(Debug)]
pub struct Condition {
    /// The operator to use for comparison
    pub operator: ConditionOperator,
    /// The field path to evaluate (e.g., "llm.model", "user.roles")
    pub field: Option<String>,
    /// The value to compare against
    pub value: Option<ConditionValue>,
    /// Nested conditions for logical operators (AND, OR, NOT)
    pub conditions: Vec<Condition>,
}

/// The mathematical shape of a [`Condition`].
#[verifier::ext_equal]
pub struct CondView {
    /// The operator
    pub operator: ConditionOperator,
    /// The field path
    pub field: Option<Seq<char>>,
    /// The literal to compare against
    pub value: Option<ValueView>,
    /// Child conditions
    pub conditions: Seq<CondView>,
}

/// The views of a sequence of conditions, elementwise.
pub open spec fn cond_views(s: Seq<Condition>) -> Seq<CondView>
    decreases s,
{
    if s.len() == 0 {
        Seq::empty()
    } else {
        proof {
            assert(decreases_to!(s => s[0]));
            assert(decreases_to!(s => s.subrange(1, s.len() as int)));
        }
        seq![s[0].deep_view()] + cond_views(s.subrange(1, s.len() as int))
    }
}

/// `cond_views` maps the view pointwise over the sequence.
pub broadcast proof fn lemma_cond_views(s: Seq<Condition>)
    ensures
        #[trigger] cond_views(s).len() == s.len(),
        forall|i: int| 0 <= i < s.len() ==> cond_views(s)[i] == s[i].deep_view(),
    decreases s.len(),
{
    if s.len() > 0 {
        let rest = s.subrange(1, s.len() as int);
        lemma_cond_views(rest);
        let first = seq![s[0].deep_view()];
        assert(cond_views(s) == first + cond_views(rest));
        assert forall|i: int| 0 <= i < s.len() implies cond_views(s)[i] == s[i].deep_view() by {
            if i > 0 {
                assert((first + cond_views(rest))[i] == cond_views(rest)[i - 1]);
                assert(rest[i - 1] == s[i]);
            }
        }
    }
}

impl DeepView for Condition {
    type V = CondView;

    open spec fn deep_view(&self) -> CondView
        decreases self,
    {
        proof {
            assert(decreases_to!(*self => self.conditions));
            assert(decreases_to!(self.conditions => self.conditions@));
        }
        CondView {
            operator: self.operator,
            field: match &self.field {
                Some(f) => Some(f@),
                None => None,
            },
            value: match &self.value {
                Some(v) => Some(v.deep_view()),
                None => None,
            },
            conditions: cond_views(self.conditions@),
        }
    }
}

impl View for Condition {
    type V = CondView;

    open spec fn view(&self) -> CondView {
        self.deep_view()
    }
}

/// Structural validity of a condition tree: `And`/`Or` need a non-empty child
/// list, `Not` exactly one child, presence tests a field, and every other leaf
/// comparison both a field and a literal.
pub open spec fn spec_cond_valid(c: CondView) -> bool
    decreases c,
{
    if c.operator is And || c.operator is Or {
        c.conditions.len() > 0 && spec_conds_valid(c.conditions)
    } else if c.operator is Not {
        proof {
            assert(c.conditions.len() == 1 ==> decreases_to!(c => c.conditions[0]));
        }
        c.conditions.len() == 1 && spec_cond_valid(c.conditions[0])
    } else if spec_is_presence(c.operator) {
        c.field is Some
    } else {
        c.field is Some && c.value is Some
    }
}

/// Validity of every condition in a sequence.
pub open spec fn spec_conds_valid(s: Seq<CondView>) -> bool
    decreases s,
{
    if s.len() == 0 {
        true
    } else {
        proof {
            assert(decreases_to!(s => s[0]));
            assert(decreases_to!(s => s.subrange(1, s.len() as int)));
        }
        spec_cond_valid(s[0]) && spec_conds_valid(s.subrange(1, s.len() as int))
    }
}

/// A sequence of conditions is valid exactly when each member is.
pub proof fn lemma_conds_valid(s: Seq<CondView>)
    ensures
        spec_conds_valid(s) <==> (forall|i: int| 0 <= i < s.len() ==> spec_cond_valid(#[trigger] s[i])),
    decreases s.len(),
{
    if s.len() > 0 {
        let rest = s.subrange(1, s.len() as int);
        lemma_conds_valid(rest);
        assert forall|i: int|
            0 <= i < s.len() && spec_conds_valid(s) implies spec_cond_valid(#[trigger] s[i]) by {
            if i > 0 {
                assert(rest[i - 1] == s[i]);
            }
        }
        if forall|i: int| 0 <= i < s.len() ==> spec_cond_valid(#[trigger] s[i]) {
            assert forall|i: int| 0 <= i < rest.len() implies spec_cond_valid(#[trigger] rest[i]) by {
                assert(rest[i] == s[i + 1]);
            }
        }
    }
}

impl Condition {
    /// Create a simple equality condition.
    pub fn equals(field: &str, value: ConditionValue) -> (r: Self)
        ensures
            r@ == (CondView {
                operator: ConditionOperator::Equals,
                field: Some(field@),
                value: Some(value@),
                conditions: Seq::empty(),
            }),
    {
        Condition {
            operator: ConditionOperator::Equals,
            field: Some(field.to_owned()),
            value: Some(value),
            conditions: Vec::new(),
        }
    }

    /// Create a "not equals" condition.
    pub fn not_equals(field: &str, value: ConditionValue) -> (r: Self)
        ensures
            r@ == (CondView {
                operator: ConditionOperator::NotEquals,
                field: Some(field@),
                value: Some(value@),
                conditions: Seq::empty(),
            }),
    {
        Condition {
            operator: ConditionOperator::NotEquals,
            field: Some(field.to_owned()),
            value: Some(value),
            conditions: Vec::new(),
        }
    }

    /// Create a "greater than" condition.
    pub fn greater_than(field: &str, value: ConditionValue) -> (r: Self)
        ensures
            r@ == (CondView {
                operator: ConditionOperator::GreaterThan,
                field: Some(field@),
                value: Some(value@),
                conditions: Seq::empty(),
            }),
    {
        Condition {
            operator: ConditionOperator::GreaterThan,
            field: Some(field.to_owned()),
            value: Some(value),
            conditions: Vec::new(),
        }
    }

    /// Create a "less than" condition.
    pub fn less_than(field: &str, value: ConditionValue) -> (r: Self)
        ensures
            r@ == (CondView {
                operator: ConditionOperator::LessThan,
                field: Some(field@),
                value: Some(value@),
                conditions: Seq::empty(),
            }),
    {
        Condition {
            operator: ConditionOperator::LessThan,
            field: Some(field.to_owned()),
            value: Some(value),
            conditions: Vec::new(),
        }
    }

    /// Create an "in" condition (value in list).
    pub fn is_in(field: &str, values: Vec<ConditionValue>) -> (r: Self)
        ensures
            r@ == (CondView {
                operator: ConditionOperator::In,
                field: Some(field@),
                value: Some(ValueView::Arr(value_views(values@))),
                conditions: Seq::empty(),
            }),
    {
        Condition {
            operator: ConditionOperator::In,
            field: Some(field.to_owned()),
            value: Some(ConditionValue::Array(values)),
            conditions: Vec::new(),
        }
    }

    /// Create a "contains" condition.
    pub fn contains(field: &str, value: ConditionValue) -> (r: Self)
        ensures
            r@ == (CondView {
                operator: ConditionOperator::Contains,
                field: Some(field@),
                value: Some(value@),
                conditions: Seq::empty(),
            }),
    {
        Condition {
            operator: ConditionOperator::Contains,
            field: Some(field.to_owned()),
            value: Some(value),
            conditions: Vec::new(),
        }
    }

    /// Create an "exists" condition.
    pub fn field_exists(field: &str) -> (r: Self)
        ensures
            r@ == (CondView {
                operator: ConditionOperator::Exists,
                field: Some(field@),
                value: None,
                conditions: Seq::empty(),
            }),
    {
        Condition {
            operator: ConditionOperator::Exists,
            field: Some(field.to_owned()),
            value: None,
            conditions: Vec::new(),
        }
    }

    /// Create a regex match condition.
    pub fn matches(field: &str, pattern: &str) -> (r: Self)
        ensures
            r@ == (CondView {
                operator: ConditionOperator::Matches,
                field: Some(field@),
                value: Some(ValueView::Str(pattern@)),
                conditions: Seq::empty(),
            }),
    {
        Condition {
            operator: ConditionOperator::Matches,
            field: Some(field.to_owned()),
            value: Some(ConditionValue::String(pattern.to_owned())),
            conditions: Vec::new(),
        }
    }

    /// Create an AND condition combining multiple conditions.
    pub fn and(conditions: Vec<Condition>) -> (r: Self)
        ensures
            r@ == (CondView {
                operator: ConditionOperator::And,
                field: None,
                value: None,
                conditions: cond_views(conditions@),
            }),
    {
        Condition { operator: ConditionOperator::And, field: None, value: None, conditions }
    }

    /// Create an OR condition combining multiple conditions.
    pub fn or(conditions: Vec<Condition>) -> (r: Self)
        ensures
            r@ == (CondView {
                operator: ConditionOperator::Or,
                field: None,
                value: None,
                conditions: cond_views(conditions@),
            }),
    {
        Condition { operator: ConditionOperator::Or, field: None, value: None, conditions }
    }

    /// Create a NOT condition negating another condition.
    pub fn not(condition: Condition) -> (r: Self)
        ensures
            r@ == (CondView {
                operator: ConditionOperator::Not,
                field: None,
                value: None,
                conditions: seq![condition@],
            }),
    {
        let mut children: Vec<Condition> = Vec::new();
        children.push(condition);
        proof {
            assert(cond_views(children@) =~= seq![children@[0].deep_view()] + cond_views(
                children@.subrange(1, 1),
            ));
            assert(children@.subrange(1, 1) =~= Seq::<Condition>::empty());
            assert(cond_views(children@) =~= seq![children@[0].deep_view()]);
        }
        Condition { operator: ConditionOperator::Not, field: None, value: None, conditions: children }
    }

    /// Validate the condition structure, post-order.
    ///
    /// Returns `Ok` exactly when every structural invariant holds, and a
    /// validation error kind otherwise.
    pub fn validate(&self) -> (r: Result<(), Error>)
        ensures
            r is Ok <==> spec_cond_valid(self@),
            r matches Err(e) ==> e is Validation,
        decreases self,
    {
        match self.operator {
            ConditionOperator::And | ConditionOperator::Or => {
                if self.conditions.len() == 0 {
                    proof {
                        lemma_cond_views(self.conditions@);
                    }
                    return Err(Error::validation(
                        "AND/OR operator requires at least one nested condition",
                    ));
                }
                let mut i: usize = 0;
                while i < self.conditions.len()
                    invariant
                        i <= self.conditions.len(),
                        spec_conds_valid(cond_views(self.conditions@).subrange(0, i as int)),
                    decreases self.conditions@.len() - i,
                {
                    proof {
                        assert(decreases_to!(*self => self.conditions));
                        assert(decreases_to!(self.conditions => self.conditions@));
                        assert(decreases_to!(self.conditions@ => self.conditions@[i as int]));
                        lemma_cond_views(self.conditions@);
                    }
                    let res = self.conditions[i].validate();
                    if res.is_err() {
                        proof {
                            lemma_conds_valid(cond_views(self.conditions@));
                        }
                        return Err(Error::validation("nested condition validation failed"));
                    }
                    proof {
                        lemma_snoc_valid(
                            cond_views(self.conditions@).subrange(0, i as int),
                            cond_views(self.conditions@)[i as int],
                        );
                        assert(cond_views(self.conditions@).subrange(0, i + 1 as int)
                            =~= cond_views(self.conditions@).subrange(0, i as int).push(
                            cond_views(self.conditions@)[i as int],
                        ));
                    }
                    i = i + 1;
                }
                proof {
                    lemma_cond_views(self.conditions@);
                    assert(cond_views(self.conditions@).subrange(
                        0,
                        self.conditions@.len() as int,
                    ) =~= cond_views(self.conditions@));
                }
                Ok(())
            },
            ConditionOperator::Not => {
                if self.conditions.len() != 1 {
                    proof {
                        lemma_cond_views(self.conditions@);
                    }
                    return Err(Error::validation(
                        "NOT operator requires exactly one nested condition",
                    ));
                }
                proof {
                    assert(decreases_to!(*self => self.conditions));
                    assert(decreases_to!(self.conditions => self.conditions@));
                    assert(decreases_to!(self.conditions@ => self.conditions@[0]));
                    lemma_cond_views(self.conditions@);
                }
                let res = self.conditions[0].validate();
                match res {
                    Ok(_) => Ok(()),
                    Err(_) => Err(Error::validation("nested condition validation failed")),
                }
            },
            ConditionOperator::Exists | ConditionOperator::NotExists => {
                if self.field.is_none() {
                    return Err(Error::validation("presence operator requires a field"));
                }
                Ok(())
            },
            _ => {
                if self.field.is_none() {
                    return Err(Error::validation("comparison operator requires a field"));
                }
                if self.value.is_none() {
                    return Err(Error::validation("comparison operator requires a value"));
                }
                Ok(())
            },
        }
    }
}

impl Clone for Condition {
    /// A clone has the same mathematical value.
    fn clone(&self) -> (r: Self)
        ensures
            r@ == self@,
        decreases self,
    {
        let mut children: Vec<Condition> = Vec::new();
        let mut i: usize = 0;
        while i < self.conditions.len()
            invariant
                i <= self.conditions.len(),
                children@.len() == i as int,
                forall|j: int|
                    0 <= j < i as int ==> children@[j].deep_view() == self.conditions@[
                        j
                    ].deep_view(),
            decreases self.conditions@.len() - i,
        {
            proof {
                assert(decreases_to!(*self => self.conditions));
                assert(decreases_to!(self.conditions => self.conditions@));
                assert(decreases_to!(self.conditions@ => self.conditions@[i as int]));
            }
            let c = self.conditions[i].clone();
            children.push(c);
            i = i + 1;
        }
        let r = Condition {
            operator: self.operator,
            field: match &self.field {
                Some(f) => Some(f.clone()),
                None => None,
            },
            value: match &self.value {
                Some(v) => Some(v.clone()),
                None => None,
            },
            conditions: children,
        };
        proof {
            lemma_cond_views(r.conditions@);
            lemma_cond_views(self.conditions@);
            assert(cond_views(r.conditions@) =~= cond_views(self.conditions@));
        }
        r
    }
}

/// Appending one condition to a valid prefix stays valid exactly when the new
/// condition is itself valid.
proof fn lemma_snoc_valid(s: Seq<CondView>, c: CondView)
    ensures
        spec_conds_valid(s.push(c)) == (spec_conds_valid(s) && spec_cond_valid(c)),
    decreases s.len(),
{
    if s.len() == 0 {
        assert(s.push(c)[0] == c);
        assert(s.push(c).subrange(1, 1) =~= Seq::<CondView>::empty());
        assert(spec_conds_valid(s.push(c)) == (spec_cond_valid(c) && spec_conds_valid(
            s.push(c).subrange(1, 1),
        )));
        assert(spec_conds_valid(Seq::<CondView>::empty()));
        assert(spec_conds_valid(s));
    } else {
        assert(s.push(c).subrange(1, s.len() as int + 1) =~= s.subrange(1, s.len() as int).push(c));
        lemma_snoc_valid(s.subrange(1, s.len() as int), c);
        assert(s.push(c)[0] == s[0]);
        assert(spec_conds_valid(s.push(c)) == (spec_cond_valid(s[0]) && spec_conds_valid(
            s.subrange(1, s.len() as int).push(c),
        )));
        assert(spec_conds_valid(s) == (spec_cond_valid(s[0]) && spec_conds_valid(
            s.subrange(1, s.len() as int),
        )));
    }
}

/// An `And` or `Or` with an empty child list never validates.
pub proof fn lemma_empty_composite_invalid(c: CondView)
    requires
        c.operator is And || c.operator is Or,
        c.conditions.len() == 0,
    ensures
        !spec_cond_valid(c),
{
}

/// A `Not` with any child count other than one never validates.
pub proof fn lemma_not_arity_invalid(c: CondView)
    requires
        c.operator is Not,
        c.conditions.len() != 1,
    ensures
        !spec_cond_valid(c),
{
}

/// A leaf comparison without a field, or (except for the presence tests)
/// without a literal, never validates.
pub proof fn lemma_leaf_missing_parts_invalid(c: CondView)
    requires
        !spec_is_composite(c.operator),
        c.field is None || (!spec_is_presence(c.operator) && c.value is None),
    ensures
        !spec_cond_valid(c),
{
}

} // verus!

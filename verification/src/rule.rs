//! Policy rules: a condition paired with an action, an enable flag and a
//! priority.

use vstd::prelude::*;
use crate::action::{Action, ActionView};
use crate::condition::{Condition, CondView, spec_cond_valid};
use crate::error::Error;

verus! {

/// A rule within a policy.
#[derive(Debug)]
pub struct PolicyRule {
    /// Unique identifier for the rule within the policy
    pub id: String,
    /// Human-readable name of the rule
    pub name: String,
    /// Optional description
    pub description: Option<String>,
    /// The condition that triggers this rule
    pub condition: Condition,
    /// The action to take when the condition matches
    pub action: Action,
    /// Whether this rule is enabled
    pub enabled: bool,
    /// Rule priority within the policy (higher = evaluated first)
    pub priority: i32,
}

/// The mathematical shape of a [`PolicyRule`].
#[verifier::ext_equal]
pub struct RuleView {
    /// Unique identifier for the rule within the policy
    pub id: Seq<char>,
    /// Human-readable name of the rule
    pub name: Seq<char>,
    /// Optional description
    pub description: Option<Seq<char>>,
    /// The condition that triggers this rule
    pub condition: CondView,
    /// The action to take when the condition matches
    pub action: ActionView,
    /// Whether this rule is enabled
    pub enabled: bool,
    /// Rule priority within the policy
    pub priority: int,
}

impl DeepView for PolicyRule {
    type V = RuleView;

    open spec fn deep_view(&self) -> RuleView {
        RuleView {
            id: self.id@,
            name: self.name@,
            description: match &self.description {
                Some(s) => Some(s@),
                None => None,
            },
            condition: self.condition.deep_view(),
            action: self.action.deep_view(),
            enabled: self.enabled,
            priority: self.priority as int,
        }
    }
}

impl View for PolicyRule {
    type V = RuleView;

    open spec fn view(&self) -> RuleView {
        self.deep_view()
    }
}

impl Clone for PolicyRule {
    /// A clone has the same mathematical value.
    fn clone(&self) -> (r: Self)
        ensures
            r@ == self@,
    {
        PolicyRule {
            id: self.id.clone(),
            name: self.name.clone(),
            description: match &self.description {
                Some(s) => Some(s.clone()),
                None => None,
            },
            condition: self.condition.clone(),
            action: self.action.clone(),
            enabled: self.enabled,
            priority: self.priority,
        }
    }
}

/// A rule is valid when its id and name are non-empty and its condition
/// validates structurally.
pub open spec fn spec_rule_valid(r: RuleView) -> bool {
    r.id.len() > 0 && r.name.len() > 0 && spec_cond_valid(r.condition)
}

impl PolicyRule {
    /// Create a new rule with basic settings.
    pub fn new(id: &str, name: &str, condition: Condition, action: Action) -> (r: Self)
        ensures
            r@ == (RuleView {
                id: id@,
                name: name@,
                description: None,
                condition: condition@,
                action: action@,
                enabled: true,
                priority: 0,
            }),
    {
        PolicyRule {
            id: id.to_owned(),
            name: name.to_owned(),
            description: None,
            condition,
            action,
            enabled: true,
            priority: 0,
        }
    }

    /// Create a rule builder.
    pub fn builder(id: &str) -> (r: PolicyRuleBuilder)
        ensures
            r.id@ == id@,
            r.name is None,
            r.description is None,
            r.condition is None,
            r.action is None,
            r.enabled,
            r.priority == 0,
    {
        PolicyRuleBuilder::new(id)
    }

    /// Set the description.
    pub fn with_description(self, description: &str) -> (r: Self)
        ensures
            r@ == (RuleView { description: Some(description@), ..self@ }),
    {
        PolicyRule { description: Some(description.to_owned()), ..self }
    }

    /// Set the priority.
    pub fn with_priority(self, priority: i32) -> (r: Self)
        ensures
            r@ == (RuleView { priority: priority as int, ..self@ }),
    {
        PolicyRule { priority, ..self }
    }

    /// Set whether the rule is enabled.
    pub fn with_enabled(self, enabled: bool) -> (r: Self)
        ensures
            r@ == (RuleView { enabled, ..self@ }),
    {
        PolicyRule { enabled, ..self }
    }

    /// Validate the rule: its id and name must be non-empty and its condition
    /// structurally sound.
    pub fn validate(&self) -> (r: Result<(), Error>)
        ensures
            r is Ok <==> spec_rule_valid(self@),
            r matches Err(e) ==> e is Validation,
    {
        if self.id.as_str().is_empty() {
            return Err(Error::validation_field("Rule ID cannot be empty", "id"));
        }
        if self.name.as_str().is_empty() {
            return Err(Error::validation_field("Rule name cannot be empty", "name"));
        }
        match self.condition.validate() {
            Ok(_) => Ok(()),
            Err(e) => Err(e),
        }
    }
}

/// Builder for creating policy rules.
#[derive(Debug)]
pub struct PolicyRuleBuilder {
    /// Rule identifier
    pub id: String,
    /// Rule name; the id is used when absent
    pub name: Option<String>,
    /// Optional description
    pub description: Option<String>,
    /// The rule's condition; required
    pub condition: Option<Condition>,
    /// The rule's action; allow when absent
    pub action: Option<Action>,
    /// Whether the rule is enabled
    pub enabled: bool,
    /// Rule priority
    pub priority: i32,
}

impl PolicyRuleBuilder {
    /// Create a new rule builder.
    pub fn new(id: &str) -> (r: Self)
        ensures
            r.id@ == id@,
            r.name is None,
            r.description is None,
            r.condition is None,
            r.action is None,
            r.enabled,
            r.priority == 0,
    {
        PolicyRuleBuilder {
            id: id.to_owned(),
            name: None,
            description: None,
            condition: None,
            action: None,
            enabled: true,
            priority: 0,
        }
    }

    /// Set the rule name.
    pub fn name(self, name: &str) -> (r: Self)
        ensures
            r.name matches Some(n) && n@ == name@,
            r.id == self.id,
            r.description == self.description,
            r.condition == self.condition,
            r.action == self.action,
            r.enabled == self.enabled,
            r.priority == self.priority,
    {
        PolicyRuleBuilder { name: Some(name.to_owned()), ..self }
    }

    /// Set the rule description.
    pub fn description(self, description: &str) -> (r: Self)
        ensures
            r.description matches Some(d) && d@ == description@,
            r.id == self.id,
            r.name == self.name,
            r.condition == self.condition,
            r.action == self.action,
            r.enabled == self.enabled,
            r.priority == self.priority,
    {
        PolicyRuleBuilder { description: Some(description.to_owned()), ..self }
    }

    /// Set the rule condition.
    pub fn condition(self, condition: Condition) -> (r: Self)
        ensures
            r == (PolicyRuleBuilder { condition: Some(condition), ..self }),
    {
        PolicyRuleBuilder { condition: Some(condition), ..self }
    }

    /// Set the rule action.
    pub fn action(self, action: Action) -> (r: Self)
        ensures
            r == (PolicyRuleBuilder { action: Some(action), ..self }),
    {
        PolicyRuleBuilder { action: Some(action), ..self }
    }

    /// Set whether the rule is enabled.
    pub fn enabled(self, enabled: bool) -> (r: Self)
        ensures
            r == (PolicyRuleBuilder { enabled, ..self }),
    {
        PolicyRuleBuilder { enabled, ..self }
    }

    /// Set the rule priority.
    pub fn priority(self, priority: i32) -> (r: Self)
        ensures
            r == (PolicyRuleBuilder { priority, ..self }),
    {
        PolicyRuleBuilder { priority, ..self }
    }

    /// Build the rule. Fails with a validation error when no condition was
    /// given; the name falls back to the id and the action to allow.
    pub fn build(self) -> (r: Result<PolicyRule, Error>)
        ensures
            r is Ok <==> self.condition is Some,
            r matches Ok(rule) ==> {
                &&& rule@.id == self.id@
                &&& rule@.name == (if self.name is Some {
                    self.name->0@
                } else {
                    self.id@
                })
                &&& rule@.condition == self.condition->0@
                &&& rule@.action == (if self.action is Some {
                    self.action->0@
                } else {
                    crate::action::spec_allow_action()
                })
                &&& rule@.enabled == self.enabled
                &&& rule@.priority == self.priority as int
            },
            r matches Err(e) ==> e is Validation,
    {
        let name = match self.name {
            Some(n) => n,
            None => self.id.clone(),
        };
        let condition = match self.condition {
            Some(c) => c,
            None => {
                return Err(Error::validation("Rule must have a condition"));
            },
        };
        let action = match self.action {
            Some(a) => a,
            None => Action::allow(),
        };
        Ok(PolicyRule {
            id: self.id,
            name,
            description: self.description,
            condition,
            action,
            enabled: self.enabled,
            priority: self.priority,
        })
    }
}

} // verus!

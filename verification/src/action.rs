//! Policy actions: the outcome a rule produces when its condition matches.

use vstd::prelude::*;
use crate::decision::DecisionType;
use crate::value::{ConditionValue, ValueView};
use crate::alist::alist_set;

verus! {

/// The type of action to take.
#[derive(Debug, Clone, Copy, PartialEq, Eq, Structural)]
pub enum ActionType {
    /// Allow the request
    Allow,
    /// Deny the request
    Deny,
    /// Allow with a warning
    Warn,
    /// Allow with modifications
    Modify,
    /// Log the request (no decision change)
    Log,
    /// Rate limit the request
    RateLimit,
}

impl Default for ActionType {
    fn default() -> (r: Self)
        ensures
            r is Allow,
    {
        ActionType::Allow
    }
}

/// Type of modification to apply.
#[derive(Debug, Clone, Copy, PartialEq, Eq, Structural)]
pub enum ModificationType {
    /// Set a field to a new value
    SetField,
    /// Remove a field
    Remove,
    /// Append to an array field
    Append,
    /// Mask a field (replace with placeholder)
    Mask,
    /// Truncate a string field
    Truncate,
}

/// A modification to apply to the request or response.
#[derive(Debug)]
pub struct Modification {
    /// Type of modification
    pub modification_type: ModificationType,
    /// Field path to modify
    pub field: String,
    /// New value to set (for set and append operations)
    pub value: Option<ConditionValue>,
}

/// The mathematical shape of a [`Modification`].
#[verifier::ext_equal]
pub struct ModView {
    /// Type of modification
    pub modification_type: ModificationType,
    /// Field path to modify
    pub field: Seq<char>,
    /// New value to set
    pub value: Option<ValueView>,
}

impl DeepView for Modification {
    type V = ModView;

    open spec fn deep_view(&self) -> ModView {
        ModView {
            modification_type: self.modification_type,
            field: self.field@,
            value: match &self.value {
                Some(v) => Some(v.deep_view()),
                None => None,
            },
        }
    }
}

impl View for Modification {
    type V = ModView;

    open spec fn view(&self) -> ModView {
        self.deep_view()
    }
}

impl Clone for Modification {
    /// A clone has the same mathematical value.
    fn clone(&self) -> (r: Self)
        ensures
            r@ == self@,
    {
        Modification {
            modification_type: self.modification_type,
            field: self.field.clone(),
            value: match &self.value {
                Some(v) => Some(v.clone()),
                None => None,
            },
        }
    }
}

impl Modification {
    /// Create a set modification.
    pub fn set(field: &str, value: ConditionValue) -> (r: Self)
        ensures
            r@ == (ModView {
                modification_type: ModificationType::SetField,
                field: field@,
                value: Some(value@),
            }),
    {
        Modification {
            modification_type: ModificationType::SetField,
            field: field.to_owned(),
            value: Some(value),
        }
    }

    /// Create a remove modification.
    pub fn remove(field: &str) -> (r: Self)
        ensures
            r@ == (ModView {
                modification_type: ModificationType::Remove,
                field: field@,
                value: None,
            }),
    {
        Modification {
            modification_type: ModificationType::Remove,
            field: field.to_owned(),
            value: None,
        }
    }

    /// Create an append modification.
    pub fn append(field: &str, value: ConditionValue) -> (r: Self)
        ensures
            r@ == (ModView {
                modification_type: ModificationType::Append,
                field: field@,
                value: Some(value@),
            }),
    {
        Modification {
            modification_type: ModificationType::Append,
            field: field.to_owned(),
            value: Some(value),
        }
    }

    /// Create a mask modification (for sensitive data).
    pub fn mask(field: &str) -> (r: Self)
        ensures
            r@ == (ModView {
                modification_type: ModificationType::Mask,
                field: field@,
                value: None,
            }),
    {
        Modification {
            modification_type: ModificationType::Mask,
            field: field.to_owned(),
            value: None,
        }
    }
}

/// An action to take when a rule matches.
#[derive(Debug)]
pub struct Action {
    /// The type of action (allow, deny, warn, modify)
    pub action_type: ActionType,
    /// The decision to return
    pub decision: DecisionType,
    /// Human-readable reason for the decision
    pub reason: Option<String>,
    /// Modifications to apply (for modify actions)
    pub modifications: Vec<Modification>,
    /// Additional metadata to include in the decision
    pub metadata: Vec<(String, ConditionValue)>,
}

/// The mathematical shape of an [`Action`].
#[verifier::ext_equal]
pub struct ActionView {
    /// The type of action
    pub action_type: ActionType,
    /// The decision to return
    pub decision: DecisionType,
    /// Reason for the decision
    pub reason: Option<Seq<char>>,
    /// Modifications to apply
    pub modifications: Seq<ModView>,
    /// Metadata to include in the decision
    pub metadata: Seq<(Seq<char>, ValueView)>,
}

impl DeepView for Action {
    type V = ActionView;

    open spec fn deep_view(&self) -> ActionView {
        ActionView {
            action_type: self.action_type,
            decision: self.decision,
            reason: match &self.reason {
                Some(s) => Some(s@),
                None => None,
            },
            modifications: self.modifications.deep_view(),
            metadata: self.metadata.deep_view(),
        }
    }
}

impl View for Action {
    type V = ActionView;

    open spec fn view(&self) -> ActionView {
        self.deep_view()
    }
}

/// The view of a plain allow action.
pub open spec fn spec_allow_action() -> ActionView {
    ActionView {
        action_type: ActionType::Allow,
        decision: DecisionType::Allow,
        reason: None,
        modifications: Seq::empty(),
        metadata: Seq::empty(),
    }
}

impl Action {
    /// Create an allow action.
    pub fn allow() -> (r: Self)
        ensures
            r@ == (ActionView {
                action_type: ActionType::Allow,
                decision: DecisionType::Allow,
                reason: None,
                modifications: Seq::empty(),
                metadata: Seq::empty(),
            }),
    {
        let r = Action {
            action_type: ActionType::Allow,
            decision: DecisionType::Allow,
            reason: None,
            modifications: Vec::new(),
            metadata: Vec::new(),
        };
        proof {
            assert(r.modifications.deep_view() =~= Seq::<ModView>::empty());
            assert(r.metadata.deep_view() =~= Seq::<(Seq<char>, ValueView)>::empty());
        }
        r
    }

    /// Create a deny action with a reason.
    pub fn deny(reason: &str) -> (r: Self)
        ensures
            r@ == (ActionView {
                action_type: ActionType::Deny,
                decision: DecisionType::Deny,
                reason: Some(reason@),
                modifications: Seq::empty(),
                metadata: Seq::empty(),
            }),
    {
        let r = Action {
            action_type: ActionType::Deny,
            decision: DecisionType::Deny,
            reason: Some(reason.to_owned()),
            modifications: Vec::new(),
            metadata: Vec::new(),
        };
        proof {
            assert(r.modifications.deep_view() =~= Seq::<ModView>::empty());
            assert(r.metadata.deep_view() =~= Seq::<(Seq<char>, ValueView)>::empty());
        }
        r
    }

    /// Create a warn action with a reason.
    pub fn warn(reason: &str) -> (r: Self)
        ensures
            r@ == (ActionView {
                action_type: ActionType::Warn,
                decision: DecisionType::Warn,
                reason: Some(reason@),
                modifications: Seq::empty(),
                metadata: Seq::empty(),
            }),
    {
        let r = Action {
            action_type: ActionType::Warn,
            decision: DecisionType::Warn,
            reason: Some(reason.to_owned()),
            modifications: Vec::new(),
            metadata: Vec::new(),
        };
        proof {
            assert(r.modifications.deep_view() =~= Seq::<ModView>::empty());
            assert(r.metadata.deep_view() =~= Seq::<(Seq<char>, ValueView)>::empty());
        }
        r
    }

    /// Create a modify action with modifications.
    pub fn modify(modifications: Vec<Modification>) -> (r: Self)
        ensures
            r@ == (ActionView {
                action_type: ActionType::Modify,
                decision: DecisionType::Modify,
                reason: None,
                modifications: modifications.deep_view(),
                metadata: Seq::empty(),
            }),
    {
        let r = Action {
            action_type: ActionType::Modify,
            decision: DecisionType::Modify,
            reason: None,
            modifications,
            metadata: Vec::new(),
        };
        proof {
            assert(r.metadata.deep_view() =~= Seq::<(Seq<char>, ValueView)>::empty());
        }
        r
    }

    /// Add a reason to the action.
    pub fn with_reason(self, reason: &str) -> (r: Self)
        ensures
            r@ == (ActionView { reason: Some(reason@), ..self@ }),
    {
        Action { reason: Some(reason.to_owned()), ..self }
    }

    /// Add metadata to the action.
    pub fn with_metadata(self, key: &str, value: ConditionValue) -> (r: Self)
        ensures
            r@ == (ActionView {
                metadata: crate::alist::alist_upsert(self@.metadata, key@, value@),
                ..self@
            }),
    {
        let mut this = self;
        alist_set(&mut this.metadata, key.to_owned(), value);
        this
    }

    /// Add a modification to the action.
    pub fn with_modification(self, modification: Modification) -> (r: Self)
        ensures
            r@ == (ActionView {
                modifications: self@.modifications.push(modification@),
                ..self@
            }),
    {
        let mut this = self;
        this.modifications.push(modification);
        proof {
            assert(this.modifications.deep_view() =~= self.modifications.deep_view().push(
                modification.deep_view(),
            ));
        }
        this
    }
}

impl Clone for Action {
    /// A clone has the same mathematical value.
    fn clone(&self) -> (r: Self)
        ensures
            r@ == self@,
    {
        let mut mods: Vec<Modification> = Vec::new();
        let mut i: usize = 0;
        while i < self.modifications.len()
            invariant
                i <= self.modifications.len(),
                mods.deep_view() =~= self.modifications.deep_view().subrange(0, i as int),
            decreases self.modifications@.len() - i,
        {
            mods.push(self.modifications[i].clone());
            proof {
                assert(mods.deep_view() =~= self.modifications.deep_view().subrange(
                    0,
                    i + 1 as int,
                ));
            }
            i = i + 1;
        }
        let mut meta: Vec<(String, ConditionValue)> = Vec::new();
        let mut j: usize = 0;
        while j < self.metadata.len()
            invariant
                j <= self.metadata.len(),
                meta.deep_view() =~= self.metadata.deep_view().subrange(0, j as int),
            decreases self.metadata@.len() - j,
        {
            let pair = (self.metadata[j].0.clone(), self.metadata[j].1.clone());
            meta.push(pair);
            proof {
                assert(meta.deep_view() =~= self.metadata.deep_view().subrange(0, j + 1 as int));
            }
            j = j + 1;
        }
        let r = Action {
            action_type: self.action_type,
            decision: self.decision,
            reason: match &self.reason {
                Some(s) => Some(s.clone()),
                None => None,
            },
            modifications: mods,
            metadata: meta,
        };
        proof {
            assert(r.modifications.deep_view() =~= self.modifications.deep_view());
            assert(r.metadata.deep_view() =~= self.metadata.deep_view());
        }
        r
    }
}

} // verus!

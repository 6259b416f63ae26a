//! Policies: named, versioned, priority-ranked collections of rules.

use vstd::prelude::*;
use crate::error::Error;
use crate::outside::now_rfc3339;
use crate::rule::{PolicyRule, RuleView, spec_rule_valid};
use crate::decision::clone_strings;
use crate::alist::alist_set;

verus! {

/// Metadata associated with a policy.
#[derive(Debug)]
pub struct PolicyMetadata {
    /// Human-readable name of the policy
    pub name: String,
    /// Optional description
    pub description: Option<String>,
    /// Semantic version of the policy
    pub version: String,
    /// Namespace for organizing policies
    pub namespace: Option<String>,
    /// Tags for categorization and filtering
    pub tags: Vec<String>,
    /// User or system that created the policy
    pub created_by: Option<String>,
    /// RFC 3339 timestamp of when the policy was created
    pub created_at: String,
    /// RFC 3339 timestamp of when the policy was last updated
    pub updated_at: String,
    /// Additional custom metadata
    pub labels: Vec<(String, String)>,
}

/// The mathematical shape of a [`PolicyMetadata`].
#[verifier::ext_equal]
pub struct MetadataView {
    /// Policy name
    pub name: Seq<char>,
    /// Optional description
    pub description: Option<Seq<char>>,
    /// Semantic version
    pub version: Seq<char>,
    /// Namespace
    pub namespace: Option<Seq<char>>,
    /// Tags
    pub tags: Seq<Seq<char>>,
    /// Creator
    pub created_by: Option<Seq<char>>,
    /// Creation timestamp text
    pub created_at: Seq<char>,
    /// Last-update timestamp text
    pub updated_at: Seq<char>,
    /// Custom labels
    pub labels: Seq<(Seq<char>, Seq<char>)>,
}

impl DeepView for PolicyMetadata {
    type V = MetadataView;

    open spec fn deep_view(&self) -> MetadataView {
        MetadataView {
            name: self.name@,
            description: match &self.description {
                Some(s) => Some(s@),
                None => None,
            },
            version: self.version@,
            namespace: match &self.namespace {
                Some(s) => Some(s@),
                None => None,
            },
            tags: self.tags.deep_view(),
            created_by: match &self.created_by {
                Some(s) => Some(s@),
                None => None,
            },
            created_at: self.created_at@,
            updated_at: self.updated_at@,
            labels: self.labels.deep_view(),
        }
    }
}

impl View for PolicyMetadata {
    type V = MetadataView;

    open spec fn view(&self) -> MetadataView {
        self.deep_view()
    }
}

impl Clone for PolicyMetadata {
    /// A clone has the same mathematical value.
    fn clone(&self) -> (r: Self)
        ensures
            r@ == self@,
    {
        let mut labels: Vec<(String, String)> = Vec::new();
        let mut i: usize = 0;
        while i < self.labels.len()
            invariant
                i <= self.labels.len(),
                labels.deep_view() =~= self.labels.deep_view().subrange(0, i as int),
            decreases self.labels@.len() - i,
        {
            let pair = (self.labels[i].0.clone(), self.labels[i].1.clone());
            labels.push(pair);
            proof {
                assert(labels.deep_view() =~= self.labels.deep_view().subrange(0, i + 1 as int));
            }
            i = i + 1;
        }
        let r = PolicyMetadata {
            name: self.name.clone(),
            description: match &self.description {
                Some(s) => Some(s.clone()),
                None => None,
            },
            version: self.version.clone(),
            namespace: match &self.namespace {
                Some(s) => Some(s.clone()),
                None => None,
            },
            tags: clone_strings(&self.tags),
            created_by: match &self.created_by {
                Some(s) => Some(s.clone()),
                None => None,
            },
            created_at: self.created_at.clone(),
            updated_at: self.updated_at.clone(),
            labels,
        };
        proof {
            assert(r.labels.deep_view() =~= self.labels.deep_view());
        }
        r
    }
}

impl PolicyMetadata {
    /// Create new metadata with the given name; the version defaults to
    /// `1.0.0` and both timestamps to the current wall-clock time.
    pub fn new(name: &str) -> (r: Self)
        ensures
            r@.name == name@,
            r@.description is None,
            r@.version == "1.0.0"@,
            r@.namespace is None,
            r@.tags == Seq::<Seq<char>>::empty(),
            r@.created_by is None,
            r@.labels == Seq::<(Seq<char>, Seq<char>)>::empty(),
    {
        let now = now_rfc3339();
        let r = PolicyMetadata {
            name: name.to_owned(),
            description: None,
            version: "1.0.0".to_owned(),
            namespace: None,
            tags: Vec::new(),
            created_by: None,
            created_at: now.clone(),
            updated_at: now,
            labels: Vec::new(),
        };
        proof {
            assert(r.tags.deep_view() =~= Seq::<Seq<char>>::empty());
            assert(r.labels.deep_view() =~= Seq::<(Seq<char>, Seq<char>)>::empty());
        }
        r
    }

    /// Set the description.
    pub fn with_description(self, description: &str) -> (r: Self)
        ensures
            r@ == (MetadataView { description: Some(description@), ..self@ }),
    {
        PolicyMetadata { description: Some(description.to_owned()), ..self }
    }

    /// Set the namespace.
    pub fn with_namespace(self, namespace: &str) -> (r: Self)
        ensures
            r@ == (MetadataView { namespace: Some(namespace@), ..self@ }),
    {
        PolicyMetadata { namespace: Some(namespace.to_owned()), ..self }
    }

    /// Set the version.
    pub fn with_version(self, version: &str) -> (r: Self)
        ensures
            r@ == (MetadataView { version: version@, ..self@ }),
    {
        PolicyMetadata { version: version.to_owned(), ..self }
    }

    /// Add a tag.
    pub fn with_tag(self, tag: &str) -> (r: Self)
        ensures
            r@ == (MetadataView { tags: self@.tags.push(tag@), ..self@ }),
    {
        let mut this = self;
        this.tags.push(tag.to_owned());
        proof {
            assert(this.tags.deep_view() =~= self.tags.deep_view().push(tag@));
        }
        this
    }

    /// Add a label.
    pub fn with_label(self, key: &str, value: &str) -> (r: Self)
        ensures
            r@ == (MetadataView {
                labels: crate::alist::alist_upsert(self@.labels, key@, value@),
                ..self@
            }),
    {
        let mut this = self;
        alist_set(&mut this.labels, key.to_owned(), value.to_owned());
        this
    }

    /// Refresh the last-update timestamp from the wall clock.
    pub fn touch(&mut self)
        ensures
            final(self)@.name == old(self)@.name,
            final(self)@.description == old(self)@.description,
            final(self)@.version == old(self)@.version,
            final(self)@.namespace == old(self)@.namespace,
            final(self)@.tags == old(self)@.tags,
            final(self)@.created_by == old(self)@.created_by,
            final(self)@.created_at == old(self)@.created_at,
            final(self)@.labels == old(self)@.labels,
    {
        self.updated_at = now_rfc3339();
    }
}

impl Default for PolicyMetadata {
    fn default() -> (r: Self)
        ensures
            r@.name == "Unnamed Policy"@,
            r@.version == "1.0.0"@,
    {
        PolicyMetadata::new("Unnamed Policy")
    }
}

/// A policy definition containing metadata and rules.
#[derive(Debug)]
pub struct Policy {
    /// Unique identifier for the policy
    pub id: String,
    /// Policy metadata
    pub metadata: PolicyMetadata,
    /// List of rules in this policy
    pub rules: Vec<PolicyRule>,
    /// Whether this policy is enabled
    pub enabled: bool,
    /// Policy priority (higher = evaluated first)
    pub priority: i32,
}

/// The mathematical shape of a [`Policy`].
#[verifier::ext_equal]
pub struct PolicyView {
    /// Unique identifier for the policy
    pub id: Seq<char>,
    /// Policy metadata
    pub metadata: MetadataView,
    /// The policy's rules
    pub rules: Seq<RuleView>,
    /// Whether this policy is enabled
    pub enabled: bool,
    /// Policy priority
    pub priority: int,
}

impl DeepView for Policy {
    type V = PolicyView;

    open spec fn deep_view(&self) -> PolicyView {
        PolicyView {
            id: self.id@,
            metadata: self.metadata.deep_view(),
            rules: self.rules.deep_view(),
            enabled: self.enabled,
            priority: self.priority as int,
        }
    }
}

impl View for Policy {
    type V = PolicyView;

    open spec fn view(&self) -> PolicyView {
        self.deep_view()
    }
}

impl Clone for Policy {
    /// A clone has the same mathematical value.
    fn clone(&self) -> (r: Self)
        ensures
            r@ == self@,
    {
        let r = Policy {
            id: self.id.clone(),
            metadata: self.metadata.clone(),
            rules: clone_rules(&self.rules),
            enabled: self.enabled,
            priority: self.priority,
        };
        r
    }
}

/// Copy a vector of rules; the copy has the same view.
pub fn clone_rules(v: &Vec<PolicyRule>) -> (r: Vec<PolicyRule>)
    ensures
        r.deep_view() == v.deep_view(),
{
    let mut out: Vec<PolicyRule> = Vec::new();
    let mut i: usize = 0;
    while i < v.len()
        invariant
            i <= v.len(),
            out.deep_view() =~= v.deep_view().subrange(0, i as int),
        decreases v@.len() - i,
    {
        out.push(v[i].clone());
        proof {
            assert(out.deep_view() =~= v.deep_view().subrange(0, i + 1 as int));
        }
        i = i + 1;
    }
    proof {
        assert(out.deep_view() =~= v.deep_view());
    }
    out
}

/// A policy is valid when its id and name are non-empty and every rule of it
/// is valid.
pub open spec fn spec_policy_valid(p: PolicyView) -> bool {
    p.id.len() > 0 && p.metadata.name.len() > 0 && forall|i: int|
        0 <= i < p.rules.len() ==> spec_rule_valid(#[trigger] p.rules[i])
}

impl Policy {
    /// Create a new policy with the given ID and name.
    pub fn new(id: &str, name: &str) -> (r: Self)
        ensures
            r@.id == id@,
            r@.metadata.name == name@,
            r@.metadata.version == "1.0.0"@,
            r@.rules == Seq::<RuleView>::empty(),
            r@.enabled,
            r@.priority == 0,
    {
        let r = Policy {
            id: id.to_owned(),
            metadata: PolicyMetadata::new(name),
            rules: Vec::new(),
            enabled: true,
            priority: 0,
        };
        proof {
            assert(r.rules.deep_view() =~= Seq::<RuleView>::empty());
        }
        r
    }

    /// Create a policy builder.
    pub fn builder(id: &str) -> (r: PolicyBuilder)
        ensures
            r.id@ == id@,
            r.name is None,
            r.description is None,
            r.namespace is None,
            r.version is None,
            r.tags@.len() == 0,
            r.rules@.len() == 0,
            r.enabled,
            r.priority == 0,
    {
        PolicyBuilder::new(id)
    }

    /// Add a rule to this policy.
    pub fn add_rule(&mut self, rule: PolicyRule)
        ensures
            final(self)@ == (PolicyView { rules: old(self)@.rules.push(rule@), ..old(self)@ }),
    {
        self.rules.push(rule);
        proof {
            assert(self.rules.deep_view() =~= old(self).rules.deep_view().push(rule.deep_view()));
        }
    }

    /// The enabled rules, in declaration order.
    pub fn enabled_rules(&self) -> (r: Vec<&PolicyRule>)
        ensures
            r.deep_view() == spec_enabled_rules(self@.rules),
    {
        let mut out: Vec<&PolicyRule> = Vec::new();
        let mut i: usize = 0;
        while i < self.rules.len()
            invariant
                i <= self.rules.len(),
                out.deep_view() =~= spec_enabled_rules(self@.rules.subrange(0, i as int)),
            decreases self.rules@.len() - i,
        {
            proof {
                lemma_enabled_rules_snoc(self@.rules.subrange(0, i as int), self@.rules[i as int]);
                assert(self@.rules.subrange(0, i + 1 as int) =~= self@.rules.subrange(
                    0,
                    i as int,
                ).push(self@.rules[i as int]));
            }
            if self.rules[i].enabled {
                let rr = &self.rules[i];
                out.push(rr);
                proof {
                    assert(out.deep_view() =~= spec_enabled_rules(
                        self@.rules.subrange(0, i + 1 as int),
                    ));
                }
            } else {
                proof {
                    assert(out.deep_view() =~= spec_enabled_rules(
                        self@.rules.subrange(0, i + 1 as int),
                    ));
                }
            }
            i = i + 1;
        }
        proof {
            assert(self@.rules.subrange(0, self@.rules.len() as int) =~= self@.rules);
        }
        out
    }

    /// Check if the policy is valid: non-empty id and name, and every rule
    /// valid.
    pub fn validate(&self) -> (r: Result<(), Error>)
        ensures
            r is Ok <==> spec_policy_valid(self@),
            r matches Err(e) ==> e is Validation,
    {
        if self.id.as_str().is_empty() {
            return Err(Error::validation_field("Policy ID cannot be empty", "id"));
        }
        if self.metadata.name.as_str().is_empty() {
            return Err(Error::validation_field(
                "Policy name cannot be empty",
                "metadata.name",
            ));
        }
        let mut i: usize = 0;
        while i < self.rules.len()
            invariant
                i <= self.rules.len(),
                forall|j: int| 0 <= j < i as int ==> spec_rule_valid(#[trigger] self@.rules[j]),
            decreases self.rules@.len() - i,
        {
            proof {
                assert(self@.rules[i as int] == self.rules@[i as int].deep_view());
            }
            let res = self.rules[i].validate();
            if res.is_err() {
                proof {
                    assert(!spec_rule_valid(self@.rules[i as int]));
                }
                return Err(Error::validation("rule validation failed"));
            }
            i = i + 1;
        }
        Ok(())
    }
}

/// The subsequence of enabled rules, in order.
pub open spec fn spec_enabled_rules(rules: Seq<RuleView>) -> Seq<RuleView>
    decreases rules.len(),
{
    if rules.len() == 0 {
        Seq::empty()
    } else {
        let rest = spec_enabled_rules(rules.subrange(0, rules.len() - 1));
        if rules[rules.len() - 1].enabled {
            rest.push(rules[rules.len() - 1])
        } else {
            rest
        }
    }
}

/// Extending the rule list by one extends its enabled subsequence exactly when
/// the new rule is enabled.
pub proof fn lemma_enabled_rules_snoc(rules: Seq<RuleView>, r: RuleView)
    ensures
        spec_enabled_rules(rules.push(r)) == if r.enabled {
            spec_enabled_rules(rules).push(r)
        } else {
            spec_enabled_rules(rules)
        },
{
    let all = rules.push(r);
    assert(all.len() == rules.len() + 1);
    assert(all[all.len() - 1] == r);
    assert(all.subrange(0, all.len() - 1) =~= rules);
}

/// Builder for creating policies.
#[derive(Debug)]
pub struct PolicyBuilder {
    /// Policy identifier
    pub id: String,
    /// Policy name; the id is used when absent
    pub name: Option<String>,
    /// Optional description
    pub description: Option<String>,
    /// Optional namespace
    pub namespace: Option<String>,
    /// Optional version; `1.0.0` when absent
    pub version: Option<String>,
    /// Tags
    pub tags: Vec<String>,
    /// Rules
    pub rules: Vec<PolicyRule>,
    /// Whether the policy is enabled
    pub enabled: bool,
    /// Policy priority
    pub priority: i32,
}

impl PolicyBuilder {
    /// Create a new policy builder with the given ID.
    pub fn new(id: &str) -> (r: Self)
        ensures
            r.id@ == id@,
            r.name is None,
            r.description is None,
            r.namespace is None,
            r.version is None,
            r.tags@.len() == 0,
            r.rules@.len() == 0,
            r.enabled,
            r.priority == 0,
    {
        PolicyBuilder {
            id: id.to_owned(),
            name: None,
            description: None,
            namespace: None,
            version: None,
            tags: Vec::new(),
            rules: Vec::new(),
            enabled: true,
            priority: 0,
        }
    }

    /// Set the policy name.
    pub fn name(self, name: &str) -> (r: Self)
        ensures
            r.name matches Some(n) && n@ == name@,
            r.id == self.id,
            r.description == self.description,
            r.namespace == self.namespace,
            r.version == self.version,
            r.tags == self.tags,
            r.rules == self.rules,
            r.enabled == self.enabled,
            r.priority == self.priority,
    {
        PolicyBuilder { name: Some(name.to_owned()), ..self }
    }

    /// Set the policy description.
    pub fn description(self, description: &str) -> (r: Self)
        ensures
            r.description matches Some(d) && d@ == description@,
            r.id == self.id,
            r.name == self.name,
            r.namespace == self.namespace,
            r.version == self.version,
            r.tags == self.tags,
            r.rules == self.rules,
            r.enabled == self.enabled,
            r.priority == self.priority,
    {
        PolicyBuilder { description: Some(description.to_owned()), ..self }
    }

    /// Set the policy namespace.
    pub fn namespace(self, namespace: &str) -> (r: Self)
        ensures
            r.namespace matches Some(n) && n@ == namespace@,
            r.id == self.id,
            r.name == self.name,
            r.description == self.description,
            r.version == self.version,
            r.tags == self.tags,
            r.rules == self.rules,
            r.enabled == self.enabled,
            r.priority == self.priority,
    {
        PolicyBuilder { namespace: Some(namespace.to_owned()), ..self }
    }

    /// Set the policy version.
    pub fn version(self, version: &str) -> (r: Self)
        ensures
            r.version matches Some(v) && v@ == version@,
            r.id == self.id,
            r.name == self.name,
            r.description == self.description,
            r.namespace == self.namespace,
            r.tags == self.tags,
            r.rules == self.rules,
            r.enabled == self.enabled,
            r.priority == self.priority,
    {
        PolicyBuilder { version: Some(version.to_owned()), ..self }
    }

    /// Add a tag to the policy.
    pub fn tag(self, tag: &str) -> (r: Self)
        ensures
            r.tags.deep_view() == self.tags.deep_view().push(tag@),
            r.id == self.id,
            r.name == self.name,
            r.description == self.description,
            r.namespace == self.namespace,
            r.version == self.version,
            r.rules == self.rules,
            r.enabled == self.enabled,
            r.priority == self.priority,
    {
        let mut this = self;
        this.tags.push(tag.to_owned());
        proof {
            assert(this.tags.deep_view() =~= self.tags.deep_view().push(tag@));
        }
        this
    }

    /// Add a rule to the policy.
    pub fn rule(self, rule: PolicyRule) -> (r: Self)
        ensures
            r.rules.deep_view() == self.rules.deep_view().push(rule@),
            r.id == self.id,
            r.name == self.name,
            r.description == self.description,
            r.namespace == self.namespace,
            r.version == self.version,
            r.tags == self.tags,
            r.enabled == self.enabled,
            r.priority == self.priority,
    {
        let mut this = self;
        this.rules.push(rule);
        proof {
            assert(this.rules.deep_view() =~= self.rules.deep_view().push(rule.deep_view()));
        }
        this
    }

    /// Set whether the policy is enabled.
    pub fn enabled(self, enabled: bool) -> (r: Self)
        ensures
            r == (PolicyBuilder { enabled, ..self }),
    {
        PolicyBuilder { enabled, ..self }
    }

    /// Set the policy priority.
    pub fn priority(self, priority: i32) -> (r: Self)
        ensures
            r == (PolicyBuilder { priority, ..self }),
    {
        PolicyBuilder { priority, ..self }
    }

    /// Build the policy. The name falls back to the id, the version to
    /// `1.0.0`.
    pub fn build(self) -> (r: Policy)
        ensures
            r@.id == self.id@,
            r@.metadata.name == (if self.name is Some {
                self.name->0@
            } else {
                self.id@
            }),
            r@.metadata.description == (match self.description {
                Some(d) => Some(d@),
                None => None::<Seq<char>>,
            }),
            r@.metadata.namespace == (match self.namespace {
                Some(n) => Some(n@),
                None => None::<Seq<char>>,
            }),
            r@.metadata.version == (if self.version is Some {
                self.version->0@
            } else {
                "1.0.0"@
            }),
            r@.metadata.tags == self.tags.deep_view(),
            r@.rules == self.rules.deep_view(),
            r@.enabled == self.enabled,
            r@.priority == self.priority as int,
    {
        let name = match &self.name {
            Some(n) => n.clone(),
            None => self.id.clone(),
        };
        let mut metadata = PolicyMetadata::new(name.as_str());
        metadata.description = self.description;
        metadata.namespace = self.namespace;
        if let Some(ver) = self.version {
            metadata.version = ver;
        }
        metadata.tags = self.tags;
        Policy {
            id: self.id,
            metadata,
            rules: self.rules,
            enabled: self.enabled,
            priority: self.priority,
        }
    }
}

} // verus!

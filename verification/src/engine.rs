//! The policy engine: owns the policy set and the decision cache, and routes
//! evaluate calls.

use vstd::prelude::*;
use crate::cache::{DecisionCache, CacheStats, spec_cache_wf, spec_ctx_key, CacheEntry};
use crate::config::Config;
use crate::context::{EvaluationContext, CtxView};
use crate::decision::{PolicyDecision, DecisionView};
use crate::document::{PolicyDocument, spec_document_valid, spec_find_policy};
use crate::error::Error;
use crate::evaluator::{Evaluator, spec_evaluate, EvalErr};
use crate::outside::now_micros;
use crate::policy::{Policy, PolicyView, spec_policy_valid};
use crate::telemetry::Telemetry;

verus! {

/// Insert a policy into a priority-descending list, after every policy of
/// equal or higher priority, so that sorting stays stable.
pub open spec fn spec_insert_policy_desc(p: PolicyView, s: Seq<PolicyView>) -> Seq<PolicyView>
    decreases s.len(),
{
    if s.len() == 0 {
        seq![p]
    } else if s[0].priority > p.priority {
        seq![s[0]] + spec_insert_policy_desc(p, s.subrange(1, s.len() as int))
    } else {
        seq![p] + s
    }
}

/// Stable sort by priority, descending.
pub open spec fn spec_sort_policies(s: Seq<PolicyView>) -> Seq<PolicyView>
    decreases s.len(),
{
    if s.len() == 0 {
        Seq::empty()
    } else {
        spec_insert_policy_desc(s[0], spec_sort_policies(s.subrange(1, s.len() as int)))
    }
}

/// The enabled policies, in load order.
pub open spec fn spec_enabled_policies(s: Seq<PolicyView>) -> Seq<PolicyView>
    decreases s.len(),
{
    if s.len() == 0 {
        Seq::empty()
    } else {
        let rest = spec_enabled_policies(s.subrange(0, s.len() - 1));
        if s[s.len() - 1].enabled {
            rest.push(s[s.len() - 1])
        } else {
            rest
        }
    }
}

/// The evaluation snapshot: enabled policies in stable priority-descending
/// order.
pub open spec fn spec_sorted_enabled(s: Seq<PolicyView>) -> Seq<PolicyView> {
    spec_sort_policies(spec_enabled_policies(s))
}

/// Replace the first policy with the same id, or append the new policy.
pub open spec fn spec_upsert_policy(s: Seq<PolicyView>, p: PolicyView) -> Seq<PolicyView>
    decreases s.len(),
{
    if s.len() == 0 {
        seq![p]
    } else if s[0].id == p.id {
        seq![p] + s.subrange(1, s.len() as int)
    } else {
        seq![s[0]] + spec_upsert_policy(s.subrange(1, s.len() as int), p)
    }
}

/// Remove the first policy with the given id, if any.
pub open spec fn spec_remove_policy(s: Seq<PolicyView>, id: Seq<char>) -> Seq<PolicyView>
    decreases s.len(),
{
    if s.len() == 0 {
        Seq::empty()
    } else if s[0].id == id {
        s.subrange(1, s.len() as int)
    } else {
        seq![s[0]] + spec_remove_policy(s.subrange(1, s.len() as int), id)
    }
}

/// Extending the policy list by one extends its enabled subsequence exactly
/// when the new policy is enabled.
pub proof fn lemma_enabled_policies_snoc(s: Seq<PolicyView>, p: PolicyView)
    ensures
        spec_enabled_policies(s.push(p)) == if p.enabled {
            spec_enabled_policies(s).push(p)
        } else {
            spec_enabled_policies(s)
        },
{
    let all = s.push(p);
    assert(all[all.len() - 1] == p);
    assert(all.subrange(0, all.len() - 1) =~= s);
}

/// When the first `j` entries outrank `p` and the next does not, the stable
/// insertion lands exactly at position `j`.
proof fn lemma_insert_policy_at(p: PolicyView, s: Seq<PolicyView>, j: int)
    requires
        0 <= j <= s.len(),
        forall|k: int| 0 <= k < j ==> (#[trigger] s[k]).priority > p.priority,
        j < s.len() ==> !(s[j].priority > p.priority),
    ensures
        spec_insert_policy_desc(p, s) == s.insert(j, p),
    decreases j,
{
    if s.len() == 0 {
        assert(seq![p] =~= s.insert(0, p));
    } else if j == 0 {
        assert(seq![p] + s =~= s.insert(0, p));
    } else {
        let rest = s.subrange(1, s.len() as int);
        assert forall|k: int| 0 <= k < j - 1 implies (#[trigger] rest[k]).priority > p.priority by {
            assert(rest[k] == s[k + 1]);
        }
        assert(j - 1 < rest.len() ==> rest[j - 1] == s[j]);
        lemma_insert_policy_at(p, rest, j - 1);
        assert(spec_insert_policy_desc(p, s) == seq![s[0]] + rest.insert(j - 1, p));
        assert(seq![s[0]] + rest.insert(j - 1, p) =~= s.insert(j, p));
    }
}

/// Insert an owned policy into a priority-descending vector, after its equals.
fn insert_policy_desc(p: Policy, v: Vec<Policy>) -> (out: Vec<Policy>)
    ensures
        out.deep_view() == spec_insert_policy_desc(p@, v.deep_view()),
{
    let mut j: usize = 0;
    while j < v.len()
        invariant
            j <= v@.len(),
            forall|k: int|
                0 <= k < j as int ==> (#[trigger] v.deep_view()[k]).priority > p@.priority,
        decreases v@.len() - j,
    {
        proof {
            assert(v.deep_view()[j as int] == v@[j as int].deep_view());
        }
        if !(v[j].priority > p.priority) {
            break;
        }
        j = j + 1;
    }
    proof {
        lemma_insert_policy_at(p@, v.deep_view(), j as int);
    }
    let mut out = v;
    out.insert(j, p);
    proof {
        assert(out.deep_view() =~~= v.deep_view().insert(j as int, p@));
    }
    out
}

/// The enabled policies, copied and sorted by priority, highest first, load
/// order preserved among equals.
pub fn sorted_enabled_policies(policies: &Vec<Policy>) -> (r: Vec<Policy>)
    ensures
        r.deep_view() == spec_sorted_enabled(policies.deep_view()),
{
    let mut enabled: Vec<Policy> = Vec::new();
    let mut i: usize = 0;
    proof {
        assert(enabled.deep_view() =~= Seq::<PolicyView>::empty());
        assert(policies.deep_view().subrange(0, 0) =~= Seq::<PolicyView>::empty());
    }
    while i < policies.len()
        invariant
            i <= policies@.len(),
            enabled.deep_view() == spec_enabled_policies(
                policies.deep_view().subrange(0, i as int),
            ),
        decreases policies@.len() - i,
    {
        proof {
            lemma_enabled_policies_snoc(
                policies.deep_view().subrange(0, i as int),
                policies.deep_view()[i as int],
            );
            assert(policies.deep_view().subrange(0, i + 1 as int) =~= policies.deep_view().subrange(
                0,
                i as int,
            ).push(policies.deep_view()[i as int]));
            assert(policies.deep_view()[i as int] == policies@[i as int].deep_view());
        }
        if policies[i].enabled {
            let ghost before = enabled.deep_view();
            let p = policies[i].clone();
            enabled.push(p);
            proof {
                assert(enabled.deep_view() =~~= before.push(policies.deep_view()[i as int]));
            }
        }
        i = i + 1;
    }
    proof {
        assert(policies.deep_view().subrange(0, policies.deep_view().len() as int)
            =~= policies.deep_view());
    }
    let ghost filtered = enabled.deep_view();
    let mut sorted: Vec<Policy> = Vec::new();
    let mut k: usize = enabled.len();
    proof {
        assert(sorted.deep_view() =~= Seq::<PolicyView>::empty());
        assert(filtered.subrange(filtered.len() as int, filtered.len() as int)
            =~= Seq::<PolicyView>::empty());
    }
    while k > 0
        invariant
            k <= enabled@.len(),
            filtered == enabled.deep_view(),
            enabled@.len() == filtered.len(),
            sorted.deep_view() == spec_sort_policies(
                filtered.subrange(k as int, filtered.len() as int),
            ),
        decreases k,
    {
        k = k - 1;
        let ghost suffix = filtered.subrange(k as int, filtered.len() as int);
        proof {
            assert(suffix[0] == filtered[k as int]);
            assert(suffix.subrange(1, suffix.len() as int) =~= filtered.subrange(
                k + 1 as int,
                filtered.len() as int,
            ));
            assert(filtered[k as int] == enabled@[k as int].deep_view());
        }
        let p = enabled[k].clone();
        sorted = insert_policy_desc(p, sorted);
    }
    proof {
        assert(filtered.subrange(0, filtered.len() as int) =~= filtered);
    }
    sorted
}

/// Engine metrics.
#[derive(Debug, Clone)]
pub struct EngineMetrics {
    /// Number of loaded policies
    pub policy_count: usize,
    /// Whether caching is enabled
    pub cache_enabled: bool,
    /// Cache statistics (if caching is enabled)
    pub cache_stats: Option<CacheStats>,
}

/// The main policy engine for evaluating policies.
pub struct PolicyEngine {
    /// Loaded policies, in load order, one per id
    pub policies: Vec<Policy>,
    /// Policy evaluator
    pub evaluator: Evaluator,
    /// Decision cache
    pub cache: Option<DecisionCache>,
    /// Telemetry instance
    pub telemetry: Option<Telemetry>,
    /// Configuration
    pub config: Config,
}

/// Whether a specified evaluation outcome agrees with a decision, up to the
/// wall-clock timing stamp.
pub open spec fn decision_agrees(s: Result<DecisionView, EvalErr>, d: DecisionView) -> bool {
    s matches Ok(dv) && dv.untimed() == d.untimed()
}

/// A cache entry is coherent with a policy set when its key is its context's
/// fingerprint and its decision is the evaluator's answer for that context.
pub open spec fn spec_entry_coherent(e: CacheEntry, ps: Seq<PolicyView>) -> bool {
    &&& e.key@ == spec_ctx_key(e.ctx@)
    &&& decision_agrees(spec_evaluate(spec_sorted_enabled(ps), e.ctx@), e.decision@)
}

/// Engine well-formedness: the cache (when present) is well formed, and every
/// cached decision is the evaluator's own answer, under the current policies,
/// for the context it remembers.
pub open spec fn spec_engine_wf(e: PolicyEngine) -> bool {
    match e.cache {
        None => true,
        Some(c) => {
            &&& spec_cache_wf(c)
            &&& forall|i: int|
                0 <= i < c.entries@.len() ==> spec_entry_coherent(
                    #[trigger] c.entries@[i],
                    e.policies.deep_view(),
                )
        },
    }
}

/// Whether every entry of `t` occurs in `prev`.
pub open spec fn entries_from(prev: Seq<CacheEntry>, t: Seq<CacheEntry>) -> bool {
    forall|j: int| 0 <= j < t.len() ==> prev.contains(#[trigger] t[j])
}

/// Coherence carries over to any rearrangement whose entries all come from a
/// coherent list.
proof fn lemma_entries_from(prev: Seq<CacheEntry>, t: Seq<CacheEntry>, ps: Seq<PolicyView>)
    requires
        forall|i: int| 0 <= i < prev.len() ==> spec_entry_coherent(#[trigger] prev[i], ps),
        entries_from(prev, t),
    ensures
        forall|j: int| 0 <= j < t.len() ==> spec_entry_coherent(#[trigger] t[j], ps),
{
    assert forall|j: int| 0 <= j < t.len() implies spec_entry_coherent(#[trigger] t[j], ps) by {
        assert(prev.contains(t[j]));
        let i = choose|i: int| 0 <= i < prev.len() && prev[i] == t[j];
        assert(spec_entry_coherent(prev[i], ps));
    }
}

/// Every element of a removal comes from the original.
proof fn lemma_remove_from(s: Seq<CacheEntry>, i: int)
    requires
        0 <= i < s.len(),
    ensures
        entries_from(s, s.remove(i)),
{
    let t = s.remove(i);
    assert forall|j: int| 0 <= j < t.len() implies s.contains(#[trigger] t[j]) by {
        if j < i {
            assert(s[j] == t[j]);
        } else {
            assert(s[j + 1] == t[j]);
        }
    }
}

/// Every element of a move-to-front reordering comes from the original.
proof fn lemma_reorder_from(s: Seq<CacheEntry>, i: int)
    requires
        0 <= i < s.len(),
    ensures
        entries_from(s, seq![s[i]] + s.remove(i)),
{
    let t = seq![s[i]] + s.remove(i);
    assert forall|j: int| 0 <= j < t.len() implies s.contains(#[trigger] t[j]) by {
        if j == 0 {
            assert(t[0] == s[i]);
        } else {
            assert(t[j] == s.remove(i)[j - 1]);
            if j - 1 < i {
                assert(s[j - 1] == t[j]);
            } else {
                assert(s[j] == t[j]);
            }
        }
    }
}

/// Every element of a drop of the last entry comes from the original.
proof fn lemma_drop_last_from(s: Seq<CacheEntry>)
    requires
        s.len() >= 1,
    ensures
        entries_from(s, s.drop_last()),
{
    let t = s.drop_last();
    assert forall|j: int| 0 <= j < t.len() implies s.contains(#[trigger] t[j]) by {
        assert(s[j] == t[j]);
    }
}

impl PolicyEngine {
    /// Create a policy engine builder.
    pub fn builder() -> (r: PolicyEngineBuilder)
        ensures
            r.config is None,
            r.policies@.len() == 0,
            !r.telemetry_enabled,
            r.cache_enabled is None,
            r.cache_size is None,
    {
        PolicyEngineBuilder {
            config: None,
            policies: Vec::new(),
            telemetry_enabled: false,
            cache_enabled: None,
            cache_size: None,
        }
    }

    /// Create a new policy engine with the given configuration.
    pub fn new(config: Config) -> (r: Self)
        ensures
            spec_engine_wf(r),
            r.policies@.len() == 0,
            r.cache is Some <==> config.cache.enabled,
            r.telemetry is None,
            r.config == config,
    {
        let cache = if config.cache.enabled {
            let ttl_us = if config.cache.l1_ttl_seconds > u64::MAX / 1_000_000 {
                u64::MAX
            } else {
                config.cache.l1_ttl_seconds * 1_000_000
            };
            Some(DecisionCache::new(config.cache.l1_max_entries, ttl_us))
        } else {
            None
        };
        PolicyEngine {
            policies: Vec::new(),
            evaluator: Evaluator::new(),
            cache,
            telemetry: None,
            config,
        }
    }

    /// Evaluate policies against the given context.
    ///
    /// The cache is consulted first; on a miss the enabled policies are
    /// snapshotted in priority order, evaluated, and the stamped decision is
    /// cached. Either way the decision returned is the evaluator's own answer
    /// for a context whose fingerprint equals this context's — up to the
    /// wall-clock timing stamp.
    pub fn evaluate(&mut self, context: &EvaluationContext) -> (r: Result<PolicyDecision, Error>)
        requires
            spec_engine_wf(*old(self)),
        ensures
            spec_engine_wf(*final(self)),
            final(self).policies == old(self).policies,
            final(self).config == old(self).config,
            r matches Ok(d) ==> exists|c2: CtxView|
                #[trigger] spec_ctx_key(c2) == spec_ctx_key(context@) && decision_agrees(
                    spec_evaluate(spec_sorted_enabled(old(self).policies.deep_view()), c2),
                    d@,
                ),
            r matches Err(e) ==> !(spec_evaluate(
                spec_sorted_enabled(old(self).policies.deep_view()),
                context@,
            ) is Ok),
    {
        let ghost ps = self.policies.deep_view();
        let start = clock_us();
        let mut cache_opt = self.cache.take();
        if let Some(c) = &mut cache_opt {
            let ghost prev = c.entries@;
            proof {
                assert(forall|i: int|
                    0 <= i < prev.len() ==> spec_entry_coherent(#[trigger] prev[i], ps));
            }
            let got = c.get(context);
            proof {
                let k = spec_ctx_key(context@);
                let fi = crate::cache::spec_find_idx(prev, k);
                if fi < prev.len() {
                    crate::cache::lemma_find_idx(prev, k);
                    lemma_remove_from(prev, fi);
                    lemma_entries_from(prev, prev.remove(fi), ps);
                    lemma_reorder_from(prev, fi);
                    lemma_entries_from(prev, seq![prev[fi]] + prev.remove(fi), ps);
                }
                assert forall|i: int|
                    0 <= i < c.entries@.len() implies spec_entry_coherent(
                    #[trigger] c.entries@[i],
                    ps,
                ) by {
                    if got is Some {
                        assert(c.entries@[i] == (seq![prev[fi]] + prev.remove(fi))[i]);
                    } else if c.entries@ == prev {
                        assert(c.entries@[i] == prev[i]);
                    } else {
                        assert(c.entries@[i] == prev.remove(fi)[i]);
                    }
                }
            }
            if let Some(d) = got {
                let now = clock_us();
                let elapsed = if now > start {
                    now - start
                } else {
                    0
                };
                let d2 = d.with_evaluation_time_us(elapsed);
                proof {
                    let k = spec_ctx_key(context@);
                    let fi = crate::cache::spec_find_idx(prev, k);
                    let entry = prev[fi];
                    crate::cache::lemma_find_idx(prev, k);
                    assert(spec_entry_coherent(entry, ps));
                    assert(spec_ctx_key(entry.ctx@) == spec_ctx_key(context@));
                    assert(d2@.untimed() == entry.decision@.untimed());
                    assert(decision_agrees(
                        spec_evaluate(spec_sorted_enabled(ps), entry.ctx@),
                        d2@,
                    ));
                }
                self.cache = cache_opt;
                return Ok(d2);
            }
        }
        let ghost entries_after_get: Seq<CacheEntry> = if cache_opt is Some {
            cache_opt->0.entries@
        } else {
            Seq::empty()
        };
        proof {
            if cache_opt is Some {
                assert(forall|i: int|
                    0 <= i < entries_after_get.len() ==> spec_entry_coherent(
                        #[trigger] entries_after_get[i],
                        ps,
                    ));
            }
        }
        let snapshot = sorted_enabled_policies(&self.policies);
        let decision = match self.evaluator.evaluate(&snapshot, context) {
            Ok(d) => d,
            Err(e) => {
                self.cache = cache_opt;
                if let Some(t) = &mut self.telemetry {
                    t.record_error(e.category());
                }
                return Err(e);
            },
        };
        let now = clock_us();
        let elapsed = if now > start {
            now - start
        } else {
            0
        };
        let final_decision = decision.with_evaluation_time_us(elapsed);
        proof {
            assert(final_decision@.untimed() == decision@.untimed());
            assert(decision_agrees(
                spec_evaluate(spec_sorted_enabled(ps), context@),
                final_decision@,
            ));
        }
        if let Some(c) = &mut cache_opt {
            let ghost before_put = c.entries@;
            c.put_at(context, &final_decision, now);
            proof {
                let k = spec_ctx_key(context@);
                let fi = crate::cache::spec_find_idx(before_put, k);
                crate::cache::lemma_find_idx(before_put, k);
                let rest = c.entries@.subrange(1, c.entries@.len() as int);
                assert(spec_entry_coherent(c.entries@[0], ps));
                if fi < before_put.len() {
                    lemma_remove_from(before_put, fi);
                    lemma_entries_from(before_put, before_put.remove(fi), ps);
                } else if before_put.len() >= 1 {
                    lemma_drop_last_from(before_put);
                    lemma_entries_from(before_put, before_put.drop_last(), ps);
                }
                assert(forall|j: int|
                    0 <= j < rest.len() ==> spec_entry_coherent(#[trigger] rest[j], ps));
                assert forall|i: int|
                    0 <= i < c.entries@.len() implies spec_entry_coherent(
                    #[trigger] c.entries@[i],
                    ps,
                ) by {
                    if i > 0 {
                        assert(c.entries@[i] == rest[i - 1]);
                    }
                }
            }
        }
        self.cache = cache_opt;
        let cache_on = self.cache.is_some();
        if let Some(t) = &mut self.telemetry {
            t.record_evaluation(&final_decision.decision, elapsed, cache_on);
        }
        proof {
            assert(spec_ctx_key(context@) == spec_ctx_key(context@));
        }
        Ok(final_decision)
    }

    /// Validate a policy document without loading it.
    pub fn validate_document(&self, document: &PolicyDocument) -> (r: Result<(), Error>)
        ensures
            r is Ok <==> spec_document_valid(document@),
            r matches Err(e) ==> e is Validation,
    {
        document.validate()
    }

    /// Validate a policy.
    pub fn validate_policy(&self, policy: &Policy) -> (r: Result<(), Error>)
        ensures
            r is Ok <==> spec_policy_valid(policy@),
            r matches Err(e) ==> e is Validation,
    {
        policy.validate()
    }

    /// Load a policy document: validate every policy, then store each under
    /// its id (replacing any policy already loaded under it) and flush the
    /// cache, so no stale decision can survive the change.
    pub fn load_document(&mut self, document: PolicyDocument) -> (r: Result<Vec<String>, Error>)
        requires
            spec_engine_wf(*old(self)),
        ensures
            spec_engine_wf(*final(self)),
            final(self).config == old(self).config,
            r is Ok <==> spec_document_valid(document@),
            r matches Ok(ids) ==> {
                &&& ids.deep_view() == Seq::new(
                    document@.policies.len(),
                    |i: int| document@.policies[i].id,
                )
                &&& final(self).policies.deep_view() == spec_load_all(
                    old(self).policies.deep_view(),
                    document@.policies,
                )
                &&& cache_cleared(*final(self))
            },
            r is Err ==> final(self).policies == old(self).policies,
            r matches Err(e) ==> e is Validation,
    {
        let valid = document.validate();
        if valid.is_err() {
            return Err(Error::validation("document validation failed"));
        }
        let mut loaded_ids: Vec<String> = Vec::new();
        let mut i: usize = 0;
        let ghost doc_policies = document@.policies;
        let mut rest = document.policies;
        proof {
            assert(loaded_ids.deep_view() =~= Seq::<Seq<char>>::empty());
            assert(self.policies.deep_view() =~= spec_load_all(
                old(self).policies.deep_view(),
                doc_policies.subrange(0, 0),
            ));
        }
        while i < rest.len()
            invariant
                i <= rest@.len(),
                rest.deep_view() == doc_policies,
                self.policies.deep_view() == spec_load_all(
                    old(self).policies.deep_view(),
                    doc_policies.subrange(0, i as int),
                ),
                loaded_ids.deep_view() =~= Seq::new(i as nat, |j: int| doc_policies[j].id),
                self.cache == old(self).cache,
                self.config == old(self).config,
                self.telemetry == old(self).telemetry,
                self.evaluator == old(self).evaluator,
            decreases rest@.len() - i,
        {
            proof {
                assert(rest.deep_view()[i as int] == rest@[i as int].deep_view());
            }
            let p = rest[i].clone();
            let ghost ids_before = loaded_ids.deep_view();
            loaded_ids.push(p.id.clone());
            proof {
                assert(loaded_ids.deep_view() =~= ids_before.push(doc_policies[i as int].id));
                assert(loaded_ids.deep_view() =~= Seq::new(
                    (i + 1) as nat,
                    |j: int| doc_policies[j].id,
                ));
                lemma_load_all_snoc(
                    old(self).policies.deep_view(),
                    doc_policies.subrange(0, i as int),
                    doc_policies[i as int],
                );
                assert(doc_policies.subrange(0, i + 1 as int) =~= doc_policies.subrange(
                    0,
                    i as int,
                ).push(doc_policies[i as int]));
            }
            self.upsert_policy(p);
            i = i + 1;
        }
        proof {
            assert(doc_policies.subrange(0, doc_policies.len() as int) =~= doc_policies);
        }
        self.flush_cache();
        Ok(loaded_ids)
    }

    /// Load a single policy: validate it, store it under its id (replacing any
    /// policy already loaded under it) and flush the cache.
    pub fn load_policy(&mut self, policy: Policy) -> (r: Result<String, Error>)
        requires
            spec_engine_wf(*old(self)),
        ensures
            spec_engine_wf(*final(self)),
            final(self).config == old(self).config,
            r is Ok <==> spec_policy_valid(policy@),
            r matches Ok(id) ==> {
                &&& id@ == policy@.id
                &&& final(self).policies.deep_view() == spec_upsert_policy(
                    old(self).policies.deep_view(),
                    policy@,
                )
                &&& cache_cleared(*final(self))
            },
            r is Err ==> final(self).policies == old(self).policies,
            r matches Err(e) ==> e is Validation,
            final(self).telemetry == old(self).telemetry,
            final(self).cache is Some <==> old(self).cache is Some,
    {
        let valid = policy.validate();
        if let Err(e) = valid {
            return Err(e);
        }
        let id = policy.id.clone();
        self.upsert_policy(policy);
        self.flush_cache();
        Ok(id)
    }

    /// Store one policy under its id, replacing any previous one.
    fn upsert_policy(&mut self, policy: Policy)
        ensures
            final(self).policies.deep_view() == spec_upsert_policy(
                old(self).policies.deep_view(),
                policy@,
            ),
            final(self).cache == old(self).cache,
            final(self).config == old(self).config,
            final(self).telemetry == old(self).telemetry,
            final(self).evaluator == old(self).evaluator,
    {
        let ghost s = old(self).policies.deep_view();
        let mut i: usize = 0;
        while i < self.policies.len()
            invariant
                i <= self.policies@.len(),
                *self == *old(self),
                forall|j: int| 0 <= j < i as int ==> (#[trigger] s[j]).id != policy@.id,
            decreases self.policies@.len() - i,
        {
            proof {
                assert(s[i as int] == self.policies@[i as int].deep_view());
            }
            if self.policies[i].id == policy.id {
                proof {
                    lemma_upsert_policy_at(s, policy@, i as int);
                }
                self.policies.set(i, policy);
                proof {
                    assert(self.policies.deep_view() =~= s.update(i as int, policy@));
                }
                return ;
            }
            i = i + 1;
        }
        proof {
            lemma_upsert_policy_absent(s, policy@);
        }
        self.policies.push(policy);
        proof {
            assert(self.policies.deep_view() =~= s.push(policy@));
        }
    }

    /// Empty the decision cache, if one is configured.
    fn flush_cache(&mut self)
        requires
            old(self).cache matches Some(c) ==> spec_cache_wf(c),
        ensures
            cache_cleared(*final(self)),
            spec_engine_wf(*final(self)),
            final(self).policies == old(self).policies,
            final(self).config == old(self).config,
            final(self).telemetry == old(self).telemetry,
            final(self).evaluator == old(self).evaluator,
            final(self).cache is Some <==> old(self).cache is Some,
            old(self).cache matches Some(c) ==> final(self).cache matches Some(c2) && c2.hits
                == c.hits && c2.misses == c.misses && c2.max_entries == c.max_entries && c2.ttl_us
                == c.ttl_us,
    {
        match &mut self.cache {
            Some(c) => {
                c.clear();
            },
            None => {},
        }
    }

    /// Unload a policy by id: remove it and flush the cache. Fails with a
    /// validation error exactly when no policy has the id.
    pub fn unload_policy(&mut self, policy_id: &str) -> (r: Result<(), Error>)
        requires
            spec_engine_wf(*old(self)),
        ensures
            spec_engine_wf(*final(self)),
            final(self).config == old(self).config,
            r is Ok <==> spec_find_policy(old(self).policies.deep_view(), policy_id@) is Some,
            r is Ok ==> {
                &&& final(self).policies.deep_view() == spec_remove_policy(
                    old(self).policies.deep_view(),
                    policy_id@,
                )
                &&& cache_cleared(*final(self))
            },
            r is Err ==> final(self).policies == old(self).policies,
            r matches Err(e) ==> e is Validation,
    {
        let ghost s = old(self).policies.deep_view();
        let key = policy_id.to_owned();
        let mut i: usize = 0;
        while i < self.policies.len()
            invariant
                i <= self.policies@.len(),
                *self == *old(self),
                key@ == policy_id@,
                forall|j: int| 0 <= j < i as int ==> (#[trigger] s[j]).id != policy_id@,
            decreases self.policies@.len() - i,
        {
            proof {
                assert(s[i as int] == self.policies@[i as int].deep_view());
            }
            if self.policies[i].id == key {
                proof {
                    crate::document::lemma_find_at(s, policy_id@, i as int);
                    lemma_remove_policy_at(s, policy_id@, i as int);
                }
                let _removed = self.policies.remove(i);
                proof {
                    assert(self.policies.deep_view() =~= s.remove(i as int));
                    assert(self.cache == old(self).cache);
                    assert(old(self).cache matches Some(cc) ==> spec_cache_wf(cc));
                    assert(self.cache matches Some(cc) ==> spec_cache_wf(cc));
                }
                self.flush_cache();
                return Ok(());
            }
            i = i + 1;
        }
        proof {
            crate::document::lemma_find_none(s, policy_id@);
        }
        Err(Error::validation("policy not found"))
    }

    /// Get a policy by id, as a copy.
    pub fn get_policy(&self, policy_id: &str) -> (r: Option<Policy>)
        ensures
            match r {
                Some(p) => spec_find_policy(self.policies.deep_view(), policy_id@) == Some(p@),
                None => spec_find_policy(self.policies.deep_view(), policy_id@) is None,
            },
    {
        let doc_like = &self.policies;
        let key = policy_id.to_owned();
        let mut i: usize = 0;
        let ghost s = self.policies.deep_view();
        while i < doc_like.len()
            invariant
                i <= doc_like@.len(),
                s == self.policies.deep_view(),
                doc_like == &self.policies,
                key@ == policy_id@,
                forall|j: int| 0 <= j < i as int ==> (#[trigger] s[j]).id != policy_id@,
            decreases doc_like@.len() - i,
        {
            proof {
                assert(s[i as int] == doc_like@[i as int].deep_view());
            }
            if doc_like[i].id == key {
                proof {
                    crate::document::lemma_find_at(s, policy_id@, i as int);
                }
                return Some(doc_like[i].clone());
            }
            i = i + 1;
        }
        proof {
            crate::document::lemma_find_none(s, policy_id@);
        }
        None
    }

    /// List all loaded policy ids, in load order.
    pub fn list_policies(&self) -> (r: Vec<String>)
        ensures
            r.deep_view() == Seq::new(
                self.policies.deep_view().len(),
                |i: int| self.policies.deep_view()[i].id,
            ),
    {
        let mut out: Vec<String> = Vec::new();
        let mut i: usize = 0;
        while i < self.policies.len()
            invariant
                i <= self.policies@.len(),
                out.deep_view() =~= Seq::new(
                    i as nat,
                    |j: int| self.policies.deep_view()[j].id,
                ),
            decreases self.policies@.len() - i,
        {
            proof {
                assert(self.policies.deep_view()[i as int] == self.policies@[i as int].deep_view());
            }
            let ghost before = out.deep_view();
            out.push(self.policies[i].id.clone());
            proof {
                assert(out.deep_view() =~~= before.push(self.policies.deep_view()[i as int].id));
                assert(out.deep_view() =~~= Seq::new(
                    (i + 1) as nat,
                    |j: int| self.policies.deep_view()[j].id,
                ));
            }
            i = i + 1;
        }
        out
    }

    /// The number of loaded policies.
    pub fn policy_count(&self) -> (r: usize)
        ensures
            r == self.policies@.len(),
    {
        self.policies.len()
    }

    /// Clear the decision cache; counters and capacity stay.
    pub fn clear_cache(&mut self)
        requires
            spec_engine_wf(*old(self)),
        ensures
            spec_engine_wf(*final(self)),
            cache_cleared(*final(self)),
            final(self).policies == old(self).policies,
            final(self).config == old(self).config,
    {
        self.flush_cache();
    }

    /// Get cache statistics, when a cache is configured.
    pub fn cache_stats(&self) -> (r: Option<CacheStats>)
        ensures
            match self.cache {
                Some(c) => r matches Some(st) && st.hits == c.hits && st.misses == c.misses
                    && st.size == c.entries@.len(),
                None => r is None,
            },
    {
        match &self.cache {
            Some(c) => Some(c.stats()),
            None => None,
        }
    }

    /// Get engine metrics.
    pub fn metrics(&self) -> (r: EngineMetrics)
        ensures
            r.policy_count == self.policies@.len(),
            r.cache_enabled == (self.cache is Some),
    {
        EngineMetrics {
            policy_count: self.policy_count(),
            cache_enabled: self.cache.is_some(),
            cache_stats: self.cache_stats(),
        }
    }
}

/// Whether the engine's cache, if any, holds no entries — what every policy
/// mutation leaves behind.
pub open spec fn cache_cleared(e: PolicyEngine) -> bool {
    match e.cache {
        None => true,
        Some(c) => c.entries@.len() == 0,
    }
}

/// Load a sequence of policies, in order, each replacing any previous policy
/// with its id.
pub open spec fn spec_load_all(s: Seq<PolicyView>, add: Seq<PolicyView>) -> Seq<PolicyView>
    decreases add.len(),
{
    if add.len() == 0 {
        s
    } else {
        spec_load_all(spec_upsert_policy(s, add[0]), add.subrange(1, add.len() as int))
    }
}

/// Loading one more policy upserts it after the others.
pub proof fn lemma_load_all_snoc(s: Seq<PolicyView>, add: Seq<PolicyView>, p: PolicyView)
    ensures
        spec_load_all(s, add.push(p)) == spec_upsert_policy(spec_load_all(s, add), p),
    decreases add.len(),
{
    let all = add.push(p);
    if add.len() == 0 {
        assert(all[0] == p);
        assert(all.subrange(1, 1) =~= Seq::<PolicyView>::empty());
        assert(spec_load_all(s, all) == spec_load_all(
            spec_upsert_policy(s, p),
            Seq::<PolicyView>::empty(),
        ));
        assert(spec_load_all(spec_upsert_policy(s, p), Seq::<PolicyView>::empty())
            == spec_upsert_policy(s, p));
        assert(spec_load_all(s, add) == s);
    } else {
        assert(all[0] == add[0]);
        assert(all.subrange(1, all.len() as int) =~= add.subrange(1, add.len() as int).push(p));
        lemma_load_all_snoc(spec_upsert_policy(s, add[0]), add.subrange(1, add.len() as int), p);
    }
}

/// An upsert that finds its id at `i`, after a clean prefix, updates in place.
proof fn lemma_upsert_policy_at(s: Seq<PolicyView>, p: PolicyView, i: int)
    requires
        0 <= i < s.len(),
        s[i].id == p.id,
        forall|j: int| 0 <= j < i ==> (#[trigger] s[j]).id != p.id,
    ensures
        spec_upsert_policy(s, p) == s.update(i, p),
    decreases i,
{
    if i == 0 {
        assert(seq![p] + s.subrange(1, s.len() as int) =~= s.update(0, p));
    } else {
        let rest = s.subrange(1, s.len() as int);
        assert(rest[i - 1] == s[i]);
        assert forall|j: int| 0 <= j < i - 1 implies (#[trigger] rest[j]).id != p.id by {
            assert(rest[j] == s[j + 1]);
        }
        lemma_upsert_policy_at(rest, p, i - 1);
        assert(spec_upsert_policy(s, p) == seq![s[0]] + rest.update(i - 1, p));
        assert(seq![s[0]] + rest.update(i - 1, p) =~= s.update(i, p));
    }
}

/// An upsert of an id that does not occur appends the policy.
proof fn lemma_upsert_policy_absent(s: Seq<PolicyView>, p: PolicyView)
    requires
        forall|j: int| 0 <= j < s.len() ==> (#[trigger] s[j]).id != p.id,
    ensures
        spec_upsert_policy(s, p) == s.push(p),
    decreases s.len(),
{
    if s.len() == 0 {
        assert(seq![p] =~= s.push(p));
    } else {
        let rest = s.subrange(1, s.len() as int);
        assert forall|j: int| 0 <= j < rest.len() implies (#[trigger] rest[j]).id != p.id by {
            assert(rest[j] == s[j + 1]);
        }
        lemma_upsert_policy_absent(rest, p);
        assert(spec_upsert_policy(s, p) == seq![s[0]] + rest.push(p));
        assert(seq![s[0]] + rest.push(p) =~= s.push(p));
    }
}

/// Removing an id found at `i`, after a clean prefix, removes that one entry.
proof fn lemma_remove_policy_at(s: Seq<PolicyView>, id: Seq<char>, i: int)
    requires
        0 <= i < s.len(),
        s[i].id == id,
        forall|j: int| 0 <= j < i ==> (#[trigger] s[j]).id != id,
    ensures
        spec_remove_policy(s, id) == s.remove(i),
    decreases s.len(),
{
    if i == 0 {
        let rest = s.subrange(1, s.len() as int);
        assert(rest =~= s.remove(0));
    } else {
        let rest = s.subrange(1, s.len() as int);
        assert(rest[i - 1] == s[i]);
        assert forall|j: int| 0 <= j < i - 1 implies (#[trigger] rest[j]).id != id by {
            assert(rest[j] == s[j + 1]);
        }
        lemma_remove_policy_at(rest, id, i - 1);
        assert(spec_remove_policy(s, id) == seq![s[0]] + rest.remove(i - 1));
        assert(seq![s[0]] + rest.remove(i - 1) =~= s.remove(i));
    }
}

/// Removing an id that does not occur changes nothing.
proof fn lemma_remove_policy_none(s: Seq<PolicyView>, id: Seq<char>)
    requires
        forall|j: int| 0 <= j < s.len() ==> (#[trigger] s[j]).id != id,
    ensures
        spec_remove_policy(s, id) == s,
    decreases s.len(),
{
    if s.len() > 0 {
        let rest = s.subrange(1, s.len() as int);
        assert forall|j: int| 0 <= j < rest.len() implies (#[trigger] rest[j]).id != id by {
            assert(rest[j] == s[j + 1]);
        }
        lemma_remove_policy_none(rest, id);
        assert(seq![s[0]] + rest =~= s);
    }
}

/// Builder for creating a policy engine.
#[derive(Debug)]
pub struct PolicyEngineBuilder {
    /// Configuration to use; the default when absent
    pub config: Option<Config>,
    /// Policies to load
    pub policies: Vec<Policy>,
    /// Whether to attach a telemetry instance
    pub telemetry_enabled: bool,
    /// Override for the cache-enabled setting
    pub cache_enabled: Option<bool>,
    /// Override for the cache capacity
    pub cache_size: Option<usize>,
}

impl PolicyEngineBuilder {
    /// Create a new policy engine builder.
    pub fn new() -> (r: Self)
        ensures
            r.config is None,
            r.policies@.len() == 0,
            !r.telemetry_enabled,
            r.cache_enabled is None,
            r.cache_size is None,
    {
        PolicyEngineBuilder {
            config: None,
            policies: Vec::new(),
            telemetry_enabled: false,
            cache_enabled: None,
            cache_size: None,
        }
    }

    /// Set the configuration.
    pub fn with_config(self, config: Config) -> (r: Self)
        ensures
            r == (PolicyEngineBuilder { config: Some(config), ..self }),
    {
        PolicyEngineBuilder { config: Some(config), ..self }
    }

    /// Add a policy to load.
    pub fn with_policy(self, policy: Policy) -> (r: Self)
        ensures
            r.policies.deep_view() == self.policies.deep_view().push(policy@),
            r.config == self.config,
            r.telemetry_enabled == self.telemetry_enabled,
            r.cache_enabled == self.cache_enabled,
            r.cache_size == self.cache_size,
    {
        let mut this = self;
        this.policies.push(policy);
        proof {
            assert(this.policies.deep_view() =~= self.policies.deep_view().push(policy@));
        }
        this
    }

    /// Enable or disable telemetry.
    pub fn with_telemetry_enabled(self, enabled: bool) -> (r: Self)
        ensures
            r == (PolicyEngineBuilder { telemetry_enabled: enabled, ..self }),
    {
        PolicyEngineBuilder { telemetry_enabled: enabled, ..self }
    }

    /// Enable or disable caching.
    pub fn with_cache_enabled(self, enabled: bool) -> (r: Self)
        ensures
            r == (PolicyEngineBuilder { cache_enabled: Some(enabled), ..self }),
    {
        PolicyEngineBuilder { cache_enabled: Some(enabled), ..self }
    }

    /// Set the cache size.
    pub fn with_cache_size(self, size: usize) -> (r: Self)
        ensures
            r == (PolicyEngineBuilder { cache_size: Some(size), ..self }),
    {
        PolicyEngineBuilder { cache_size: Some(size), ..self }
    }

    /// Build the policy engine: apply the overrides to the configuration,
    /// attach telemetry if asked for, and load every given policy (each must
    /// validate).
    pub fn build(self) -> (r: Result<PolicyEngine, Error>)
        ensures
            r matches Ok(e) ==> {
                &&& spec_engine_wf(e)
                &&& e.policies.deep_view() == spec_load_all(
                    Seq::empty(),
                    self.policies.deep_view(),
                )
                &&& (e.telemetry is Some) == self.telemetry_enabled
            },
            r matches Err(err) ==> err is Validation,
    {
        let mut config = match self.config {
            Some(c) => c,
            None => Config::default(),
        };
        if let Some(enabled) = self.cache_enabled {
            config.cache.enabled = enabled;
        }
        if let Some(size) = self.cache_size {
            config.cache.l1_max_entries = size;
        }
        let mut engine = PolicyEngine::new(config);
        if self.telemetry_enabled {
            let t = match Telemetry::new(&engine.config.telemetry) {
                Ok(t) => t,
                Err(_) => {
                    return Err(Error::validation("telemetry initialization failed"));
                },
            };
            engine.telemetry = Some(t);
        }
        let mut i: usize = 0;
        let ghost to_load = self.policies.deep_view();
        let policies = self.policies;
        proof {
            assert(engine.policies.deep_view() =~= spec_load_all(
                Seq::empty(),
                to_load.subrange(0, 0),
            ));
        }
        while i < policies.len()
            invariant
                i <= policies@.len(),
                policies.deep_view() == to_load,
                spec_engine_wf(engine),
                (engine.telemetry is Some) == self.telemetry_enabled,
                engine.policies.deep_view() == spec_load_all(
                    Seq::empty(),
                    to_load.subrange(0, i as int),
                ),
            decreases policies@.len() - i,
        {
            proof {
                assert(policies.deep_view()[i as int] == policies@[i as int].deep_view());
            }
            let p = policies[i].clone();
            let loaded = engine.load_policy(p);
            if loaded.is_err() {
                return Err(Error::validation("policy validation failed"));
            }
            proof {
                lemma_load_all_snoc(Seq::empty(), to_load.subrange(0, i as int), to_load[i as int]);
                assert(to_load.subrange(0, i + 1 as int) =~= to_load.subrange(0, i as int).push(
                    to_load[i as int],
                ));
            }
            i = i + 1;
        }
        proof {
            assert(to_load.subrange(0, to_load.len() as int) =~= to_load);
        }
        Ok(engine)
    }
}

impl Default for PolicyEngineBuilder {
    fn default() -> (r: Self)
        ensures
            r.config is None,
            r.policies@.len() == 0,
            !r.telemetry_enabled,
            r.cache_enabled is None,
            r.cache_size is None,
    {
        PolicyEngineBuilder::new()
    }
}

/// The wall clock in microseconds, clamped below at zero.
fn clock_us() -> u64 {
    let t = now_micros();
    if t > 0 {
        t as u64
    } else {
        0
    }
}

} // verus!

verus! {

impl PolicyEngine {
    /// Load a policy document from YAML text: parse, validate, store, flush.
    pub fn load_policy_yaml(&mut self, yaml: &str) -> (r: Result<Vec<String>, Error>)
        requires
            spec_engine_wf(*old(self)),
        ensures
            spec_engine_wf(*final(self)),
            final(self).config == old(self).config,
            r matches Ok(ids) ==> {
                &&& crate::outside::yaml_as_json(yaml@) matches Some(j)
                &&& crate::document::spec_document_of_text(j) matches Ok(dv)
                &&& ids.deep_view() == Seq::new(dv.policies.len(), |i: int| dv.policies[i].id)
                &&& final(self).policies.deep_view() == spec_load_all(
                    old(self).policies.deep_view(),
                    dv.policies,
                )
                &&& cache_cleared(*final(self))
            },
            r is Err ==> final(self).policies == old(self).policies,
    {
        let document = match crate::document::PolicyDocument::from_yaml(yaml) {
            Ok(d) => d,
            Err(e) => {
                return Err(e);
            },
        };
        self.load_document(document)
    }

    /// Load a policy document from JSON text: parse, validate, store, flush.
    pub fn load_policy_json(&mut self, json: &str) -> (r: Result<Vec<String>, Error>)
        requires
            spec_engine_wf(*old(self)),
        ensures
            spec_engine_wf(*final(self)),
            final(self).config == old(self).config,
            r matches Ok(ids) ==> {
                &&& crate::document::spec_document_of_text(json@) matches Ok(dv)
                &&& ids.deep_view() == Seq::new(dv.policies.len(), |i: int| dv.policies[i].id)
                &&& final(self).policies.deep_view() == spec_load_all(
                    old(self).policies.deep_view(),
                    dv.policies,
                )
                &&& cache_cleared(*final(self))
            },
            r is Err ==> final(self).policies == old(self).policies,
    {
        let document = match crate::document::PolicyDocument::from_json(json) {
            Ok(d) => d,
            Err(e) => {
                return Err(e);
            },
        };
        self.load_document(document)
    }
}

} // verus!

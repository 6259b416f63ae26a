//! The decision cache: fingerprint-keyed, TTL- and capacity-bounded, with
//! least-recently-used eviction and lifetime hit/miss counters.

use vstd::prelude::*;
use crate::context::{EvaluationContext, CtxView};
use crate::decision::PolicyDecision;
use crate::outside::{blake3_hex, fingerprint_of, now_micros};

verus! {

/// Cache statistics. The hit rate is a whole percentage.
#[derive(Debug, Clone)]
pub struct CacheStats {
    /// Number of cache hits
    pub hits: u64,
    /// Number of cache misses
    pub misses: u64,
    /// Current cache size
    pub size: usize,
    /// Hit rate, in whole percent
    pub hit_rate: u64,
}

/// One cached decision with its key and expiry, remembering (in ghost form)
/// the context it was computed for.
pub struct CacheEntry {
    /// The fingerprint of the context's canonical serialization
    pub key: String,
    /// The cached decision
    pub decision: PolicyDecision,
    /// Wall-clock expiry, in microseconds since the Unix epoch
    pub expires_at_us: u64,
    /// The context the decision was computed for
    pub ctx: Ghost<CtxView>,
}

/// A cache for policy decisions.
pub struct DecisionCache {
    /// Entries, most recently used first
    pub entries: Vec<CacheEntry>,
    /// Maximum number of entries held
    pub max_entries: usize,
    /// Time to live of an entry, in microseconds
    pub ttl_us: u64,
    /// Lifetime hit counter
    pub hits: u64,
    /// Lifetime miss counter
    pub misses: u64,
}

/// The canonical fingerprint key of a context.
pub open spec fn spec_ctx_key(c: CtxView) -> Seq<char> {
    fingerprint_of(crate::json::spec_ser_node(crate::context::spec_ctx_node(c)))
}

/// The index of the first entry with the given key, or the length.
pub open spec fn spec_find_idx(s: Seq<CacheEntry>, k: Seq<char>) -> int
    decreases s.len(),
{
    if s.len() == 0 {
        0
    } else if s[0].key@ == k {
        0
    } else {
        1 + spec_find_idx(s.subrange(1, s.len() as int), k)
    }
}

/// The found index is in bounds exactly when the key occurs, points at the
/// key, and everything before it misses.
pub proof fn lemma_find_idx(s: Seq<CacheEntry>, k: Seq<char>)
    ensures
        0 <= spec_find_idx(s, k) <= s.len(),
        spec_find_idx(s, k) < s.len() ==> s[spec_find_idx(s, k)].key@ == k,
        forall|j: int| 0 <= j < spec_find_idx(s, k) ==> (#[trigger] s[j]).key@ != k,
    decreases s.len(),
{
    if s.len() > 0 && s[0].key@ != k {
        let rest = s.subrange(1, s.len() as int);
        lemma_find_idx(rest, k);
        assert forall|j: int| 0 <= j < spec_find_idx(s, k) implies (#[trigger] s[j]).key@ != k by {
            if j > 0 {
                assert(rest[j - 1] == s[j]);
            }
        }
    }
}

/// Well-formedness of the cache: room for at least one entry, never over
/// capacity, and one entry per key.
pub open spec fn spec_cache_wf(c: DecisionCache) -> bool {
    &&& c.max_entries >= 1
    &&& c.entries@.len() <= c.max_entries
    &&& forall|i: int, j: int|
        0 <= i < j < c.entries@.len() ==> (#[trigger] c.entries@[i]).key@ != (
        #[trigger] c.entries@[j]).key@
}

impl DecisionCache {
    /// Create a new decision cache with the given capacity (at least one entry
    /// is always kept) and entry time-to-live in microseconds.
    pub fn new(max_entries: usize, ttl_us: u64) -> (r: Self)
        ensures
            spec_cache_wf(r),
            r.entries@.len() == 0,
            r.max_entries == vstd::math::max(max_entries as int, 1),
            r.ttl_us == ttl_us,
            r.hits == 0,
            r.misses == 0,
    {
        let capacity = if max_entries == 0 {
            1
        } else {
            max_entries
        };
        DecisionCache { entries: Vec::new(), max_entries: capacity, ttl_us, hits: 0, misses: 0 }
    }

    /// Compute the cache key for a context: the fingerprint of its canonical
    /// serialization.
    pub fn compute_key(context: &EvaluationContext) -> (r: String)
        ensures
            r@ == spec_ctx_key(context@),
    {
        let text = context.to_json();
        blake3_hex(text.as_str())
    }

    /// Look up a decision for the context at the given wall-clock time.
    ///
    /// A fresh entry counts as a hit, moves to the front and is returned as a
    /// copy; an expired entry is removed and counts as a miss; anything else
    /// is a plain miss. The capacity, time to live and the other entries stay
    /// as they were.
    pub fn get_at(&mut self, context: &EvaluationContext, now_us: u64) -> (r: Option<
        PolicyDecision,
    >)
        requires
            spec_cache_wf(*old(self)),
        ensures
            spec_cache_wf(*final(self)),
            final(self).max_entries == old(self).max_entries,
            final(self).ttl_us == old(self).ttl_us,
            ({
                let k = spec_ctx_key(context@);
                let i = spec_find_idx(old(self).entries@, k);
                if i < old(self).entries@.len() && old(self).entries@[i].expires_at_us > now_us {
                    &&& r matches Some(d) && d@ == old(self).entries@[i].decision@
                    &&& final(self).entries@ == seq![old(self).entries@[i]] + old(
                        self,
                    ).entries@.remove(i)
                    &&& final(self).hits as int == vstd::math::min(
                        old(self).hits as int + 1,
                        u64::MAX as int,
                    )
                    &&& final(self).misses == old(self).misses
                } else {
                    &&& r is None
                    &&& final(self).entries@ == (if i < old(self).entries@.len() {
                        old(self).entries@.remove(i)
                    } else {
                        old(self).entries@
                    })
                    &&& final(self).hits == old(self).hits
                    &&& final(self).misses as int == vstd::math::min(
                        old(self).misses as int + 1,
                        u64::MAX as int,
                    )
                }
            }),
    {
        let key = Self::compute_key(context);
        let ghost k = spec_ctx_key(context@);
        proof {
            lemma_find_idx(self.entries@, k);
        }
        let mut i: usize = 0;
        while i < self.entries.len()
            invariant
                i <= self.entries@.len(),
                *self == *old(self),
                key@ == k,
                forall|j: int| 0 <= j < i as int ==> (#[trigger] self.entries@[j]).key@ != k,
            decreases self.entries@.len() - i,
        {
            if self.entries[i].key == key {
                proof {
                    lemma_find_at_idx(self.entries@, k, i as int);
                }
                if self.entries[i].expires_at_us > now_us {
                    let entry = self.entries.remove(i);
                    let d = entry.decision.clone();
                    self.entries.insert(0, entry);
                    self.hits = bump(self.hits);
                    proof {
                        assert(self.entries@ =~= seq![old(self).entries@[i as int]] + old(
                            self,
                        ).entries@.remove(i as int));
                        lemma_reorder_wf(old(self).entries@, i as int, self.max_entries as int);
                    }
                    return Some(d);
                } else {
                    let _expired = self.entries.remove(i);
                    self.misses = bump(self.misses);
                    proof {
                        assert(self.entries@ =~= old(self).entries@.remove(i as int));
                        lemma_remove_wf(old(self).entries@, i as int, self.max_entries as int);
                    }
                    return None;
                }
            }
            i = i + 1;
        }
        proof {
            lemma_find_none_idx(self.entries@, k);
        }
        self.misses = bump(self.misses);
        None
    }

    /// Look up a decision for the context at the wall clock's current time.
    /// Everything the time-explicit lookup promises holds for some present
    /// reading of the clock.
    pub fn get(&mut self, context: &EvaluationContext) -> (r: Option<PolicyDecision>)
        requires
            spec_cache_wf(*old(self)),
        ensures
            spec_cache_wf(*final(self)),
            final(self).max_entries == old(self).max_entries,
            final(self).ttl_us == old(self).ttl_us,
            ({
                let k = spec_ctx_key(context@);
                let i = spec_find_idx(old(self).entries@, k);
                match r {
                    Some(d) => i < old(self).entries@.len() && d@ == old(
                        self,
                    ).entries@[i].decision@ && final(self).entries@ == seq![
                        old(self).entries@[i],
                    ] + old(self).entries@.remove(i),
                    None => (final(self).entries@ == old(self).entries@ || (i < old(
                        self,
                    ).entries@.len() && final(self).entries@ == old(self).entries@.remove(i)))
                        && final(self).misses as int == vstd::math::min(
                        old(self).misses as int + 1,
                        u64::MAX as int,
                    ),
                }
            }),
    {
        let now = clock_us();
        self.get_at(context, now)
    }

    /// Store a decision for the context at the given wall-clock time.
    ///
    /// An entry for the same context is replaced and moved to the front; a new
    /// entry is put at the front, evicting the least recently used entry when
    /// the cache is full. Counters do not move.
    pub fn put_at(&mut self, context: &EvaluationContext, decision: &PolicyDecision, now_us: u64)
        requires
            spec_cache_wf(*old(self)),
        ensures
            spec_cache_wf(*final(self)),
            final(self).max_entries == old(self).max_entries,
            final(self).ttl_us == old(self).ttl_us,
            final(self).hits == old(self).hits,
            final(self).misses == old(self).misses,
            ({
                let k = spec_ctx_key(context@);
                let i = spec_find_idx(old(self).entries@, k);
                let fresh = final(self).entries@[0];
                &&& final(self).entries@.len() >= 1
                &&& fresh.key@ == k
                &&& fresh.decision@ == decision@
                &&& fresh.ctx@ == context@
                &&& fresh.expires_at_us as int == vstd::math::min(
                    now_us as int + old(self).ttl_us as int,
                    u64::MAX as int,
                )
                &&& final(self).entries@.subrange(1, final(self).entries@.len() as int) == (
                    if i < old(self).entries@.len() {
                        old(self).entries@.remove(i)
                    } else if old(self).entries@.len() < old(self).max_entries {
                        old(self).entries@
                    } else {
                        old(self).entries@.drop_last()
                    })
            }),
    {
        let key = Self::compute_key(context);
        let ghost k = spec_ctx_key(context@);
        let expires_at_us = if now_us > u64::MAX - self.ttl_us {
            u64::MAX
        } else {
            now_us + self.ttl_us
        };
        let entry = CacheEntry {
            key,
            decision: decision.clone(),
            expires_at_us,
            ctx: Ghost(context@),
        };
        proof {
            lemma_find_idx(self.entries@, k);
        }
        let mut i: usize = 0;
        let mut found = self.entries.len();
        while i < self.entries.len()
            invariant
                i <= self.entries@.len(),
                *self == *old(self),
                found == self.entries@.len(),
                entry.key@ == k,
                entry.decision@ == decision@,
                entry.ctx@ == context@,
                entry.expires_at_us as int == vstd::math::min(
                    now_us as int + old(self).ttl_us as int,
                    u64::MAX as int,
                ),
                forall|j: int| 0 <= j < i as int ==> (#[trigger] self.entries@[j]).key@ != k,
            decreases self.entries@.len() - i,
        {
            if self.entries[i].key == entry.key {
                proof {
                    lemma_find_at_idx(self.entries@, k, i as int);
                }
                let _old_entry = self.entries.remove(i);
                self.entries.insert(0, entry);
                proof {
                    assert(self.entries@.subrange(1, self.entries@.len() as int) =~= old(
                        self,
                    ).entries@.remove(i as int));
                    lemma_replace_wf(old(self).entries@, i as int, self.entries@[0], self.max_entries as int);
                }
                return ;
            }
            i = i + 1;
        }
        proof {
            lemma_find_none_idx(self.entries@, k);
        }
        if self.entries.len() == self.max_entries {
            let _evicted = self.entries.pop();
            proof {
                assert(self.entries@ =~= old(self).entries@.drop_last());
            }
        }
        self.entries.insert(0, entry);
        proof {
            assert(self.entries@.subrange(1, self.entries@.len() as int) =~= (
                if old(self).entries@.len() < old(self).max_entries {
                    old(self).entries@
                } else {
                    old(self).entries@.drop_last()
                }));
            lemma_insert_front_wf(old(self).entries@, self.entries@, self.max_entries as int, k);
        }
    }

    /// Store a decision for the context at the wall clock's current time.
    pub fn put(&mut self, context: &EvaluationContext, decision: &PolicyDecision)
        requires
            spec_cache_wf(*old(self)),
        ensures
            spec_cache_wf(*final(self)),
            final(self).max_entries == old(self).max_entries,
            final(self).ttl_us == old(self).ttl_us,
            final(self).hits == old(self).hits,
            final(self).misses == old(self).misses,
            final(self).entries@.len() >= 1,
            final(self).entries@[0].key@ == spec_ctx_key(context@),
            final(self).entries@[0].decision@ == decision@,
            final(self).entries@[0].ctx@ == context@,
    {
        let now = clock_us();
        self.put_at(context, decision, now)
    }

    /// Clear all cached entries. The counters are lifetime totals and stay.
    pub fn clear(&mut self)
        ensures
            spec_cache_wf(*old(self)) ==> spec_cache_wf(*final(self)),
            final(self).entries@.len() == 0,
            final(self).max_entries == old(self).max_entries,
            final(self).ttl_us == old(self).ttl_us,
            final(self).hits == old(self).hits,
            final(self).misses == old(self).misses,
    {
        self.entries.clear();
    }

    /// Get cache statistics: the lifetime counters, the current size, and the
    /// hit rate as a whole percentage of all accesses (zero when none).
    pub fn stats(&self) -> (r: CacheStats)
        ensures
            r.hits == self.hits,
            r.misses == self.misses,
            r.size == self.entries@.len(),
            r.hit_rate as int == (if self.hits as int + self.misses as int > 0 {
                self.hits as int * 100 / (self.hits as int + self.misses as int)
            } else {
                0
            }),
    {
        let hits128 = self.hits as u128;
        let misses128 = self.misses as u128;
        let total = hits128 + misses128;
        let hit_rate: u64 = if total > 0 {
            proof {
                assert((hits128 as int) * 100 / (total as int) <= 100) by (nonlinear_arith)
                    requires
                        hits128 as int <= total as int,
                        total as int > 0,
                ;
            }
            (hits128 * 100 / total) as u64
        } else {
            0
        };
        CacheStats { hits: self.hits, misses: self.misses, size: self.entries.len(), hit_rate }
    }
}

/// The wall clock in microseconds, clamped below at zero.
fn clock_us() -> u64 {
    let t = now_micros();
    if t > 0 {
        t as u64
    } else {
        0
    }
}

/// Add one, stopping at the counter's maximum.
fn bump(x: u64) -> (r: u64)
    ensures
        r as int == vstd::math::min(x as int + 1, u64::MAX as int),
{
    if x == u64::MAX {
        x
    } else {
        x + 1
    }
}

/// A scan that finds the key at `i` after a clean prefix agrees with the
/// first-match index.
proof fn lemma_find_at_idx(s: Seq<CacheEntry>, k: Seq<char>, i: int)
    requires
        0 <= i < s.len(),
        s[i].key@ == k,
        forall|j: int| 0 <= j < i ==> (#[trigger] s[j]).key@ != k,
    ensures
        spec_find_idx(s, k) == i,
    decreases i,
{
    if i > 0 {
        let rest = s.subrange(1, s.len() as int);
        assert forall|j: int| 0 <= j < i - 1 implies (#[trigger] rest[j]).key@ != k by {
            assert(rest[j] == s[j + 1]);
        }
        assert(rest[i - 1] == s[i]);
        lemma_find_at_idx(rest, k, i - 1);
    }
}

/// A scan that misses everywhere agrees with the first-match index.
proof fn lemma_find_none_idx(s: Seq<CacheEntry>, k: Seq<char>)
    requires
        forall|j: int| 0 <= j < s.len() ==> (#[trigger] s[j]).key@ != k,
    ensures
        spec_find_idx(s, k) == s.len(),
    decreases s.len(),
{
    if s.len() > 0 {
        let rest = s.subrange(1, s.len() as int);
        assert forall|j: int| 0 <= j < rest.len() implies (#[trigger] rest[j]).key@ != k by {
            assert(rest[j] == s[j + 1]);
        }
        lemma_find_none_idx(rest, k);
    }
}

/// Moving one entry to the front keeps the keys distinct and the length.
proof fn lemma_reorder_wf(s: Seq<CacheEntry>, i: int, max: int)
    requires
        0 <= i < s.len(),
        s.len() <= max,
        forall|a: int, b: int|
            0 <= a < b < s.len() ==> (#[trigger] s[a]).key@ != (#[trigger] s[b]).key@,
    ensures
        ({
            let t = seq![s[i]] + s.remove(i);
            &&& t.len() == s.len()
            &&& forall|a: int, b: int|
                0 <= a < b < t.len() ==> (#[trigger] t[a]).key@ != (#[trigger] t[b]).key@
        }),
{
    let t = seq![s[i]] + s.remove(i);
    assert forall|a: int, b: int|
        0 <= a < b < t.len() implies (#[trigger] t[a]).key@ != (#[trigger] t[b]).key@ by {
        let orig_a = if a == 0 {
            i
        } else if a - 1 < i {
            a - 1
        } else {
            a
        };
        let orig_b = if b - 1 < i {
            b - 1
        } else {
            b
        };
        assert(t[a] == s[orig_a]);
        assert(t[b] == s[orig_b]);
    }
}

/// Removing one entry keeps the keys distinct.
proof fn lemma_remove_wf(s: Seq<CacheEntry>, i: int, max: int)
    requires
        0 <= i < s.len(),
        s.len() <= max,
        forall|a: int, b: int|
            0 <= a < b < s.len() ==> (#[trigger] s[a]).key@ != (#[trigger] s[b]).key@,
    ensures
        ({
            let t = s.remove(i);
            &&& t.len() == s.len() - 1
            &&& forall|a: int, b: int|
                0 <= a < b < t.len() ==> (#[trigger] t[a]).key@ != (#[trigger] t[b]).key@
        }),
{
    let t = s.remove(i);
    assert forall|a: int, b: int|
        0 <= a < b < t.len() implies (#[trigger] t[a]).key@ != (#[trigger] t[b]).key@ by {
        let orig_a = if a < i {
            a
        } else {
            a + 1
        };
        let orig_b = if b < i {
            b
        } else {
            b + 1
        };
        assert(t[a] == s[orig_a]);
        assert(t[b] == s[orig_b]);
    }
}

/// Replacing an entry by a fresh front entry with the same key keeps the keys
/// distinct and the length.
proof fn lemma_replace_wf(s: Seq<CacheEntry>, i: int, fresh: CacheEntry, max: int)
    requires
        0 <= i < s.len(),
        s.len() <= max,
        fresh.key@ == s[i].key@,
        forall|a: int, b: int|
            0 <= a < b < s.len() ==> (#[trigger] s[a]).key@ != (#[trigger] s[b]).key@,
    ensures
        ({
            let t = seq![fresh] + s.remove(i);
            &&& t.len() == s.len()
            &&& forall|a: int, b: int|
                0 <= a < b < t.len() ==> (#[trigger] t[a]).key@ != (#[trigger] t[b]).key@
        }),
{
    let t = seq![fresh] + s.remove(i);
    assert forall|a: int, b: int|
        0 <= a < b < t.len() implies (#[trigger] t[a]).key@ != (#[trigger] t[b]).key@ by {
        let orig_a = if a == 0 {
            i
        } else if a - 1 < i {
            a - 1
        } else {
            a
        };
        let orig_b = if b - 1 < i {
            b - 1
        } else {
            b
        };
        if a == 0 {
            assert(t[a].key@ == s[i].key@);
        } else {
            assert(t[a] == s[orig_a]);
        }
        assert(t[b] == s[orig_b]);
    }
}

/// Inserting a fresh key at the front of a list it does not occur in keeps the
/// keys distinct, within capacity.
proof fn lemma_insert_front_wf(s: Seq<CacheEntry>, t: Seq<CacheEntry>, max: int, k: Seq<char>)
    requires
        max >= 1,
        s.len() <= max,
        forall|a: int, b: int|
            0 <= a < b < s.len() ==> (#[trigger] s[a]).key@ != (#[trigger] s[b]).key@,
        forall|j: int| 0 <= j < s.len() ==> (#[trigger] s[j]).key@ != k,
        t.len() >= 1,
        t[0].key@ == k,
        t.subrange(1, t.len() as int) == (if s.len() < max {
            s
        } else {
            s.drop_last()
        }),
    ensures
        t.len() <= max,
        forall|a: int, b: int|
            0 <= a < b < t.len() ==> (#[trigger] t[a]).key@ != (#[trigger] t[b]).key@,
{
    let rest = t.subrange(1, t.len() as int);
    assert(s.drop_last() =~= s.subrange(0, s.len() - 1));
    assert forall|a: int, b: int|
        0 <= a < b < t.len() implies (#[trigger] t[a]).key@ != (#[trigger] t[b]).key@ by {
        if a == 0 {
            assert(t[b] == rest[b - 1]);
            if s.len() < max {
                assert(rest[b - 1] == s[b - 1]);
            } else {
                assert(rest[b - 1] == s.subrange(0, s.len() - 1)[b - 1]);
                assert(rest[b - 1] == s[b - 1]);
            }
            assert(s[b - 1].key@ != k);
        } else {
            assert(t[a] == rest[a - 1]);
            assert(t[b] == rest[b - 1]);
            if s.len() < max {
                assert(rest[a - 1] == s[a - 1] && rest[b - 1] == s[b - 1]);
            } else {
                assert(rest[a - 1] == s.subrange(0, s.len() - 1)[a - 1]);
                assert(rest[b - 1] == s.subrange(0, s.len() - 1)[b - 1]);
                assert(rest[a - 1] == s[a - 1] && rest[b - 1] == s[b - 1]);
            }
        }
    }
}

} // verus!

verus! {

/// Contexts with equal canonical serializations have equal fingerprints: the
/// fingerprint is a function of the stable serialization alone.
pub proof fn lemma_fingerprint_stable(c1: CtxView, c2: CtxView)
    requires
        crate::json::spec_ser_node(crate::context::spec_ctx_node(c1)) == crate::json::spec_ser_node(
            crate::context::spec_ctx_node(c2),
        ),
    ensures
        spec_ctx_key(c1) == spec_ctx_key(c2),
{
}

} // verus!

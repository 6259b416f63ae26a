//! String-keyed association lists with first-match lookup.
//!
//! These back every string-to-value mapping in the engine (modification sets,
//! metadata, labels). Insertion order is kept, and `upsert` overwrites the
//! first binding of a key, so that later merges layer atop earlier ones.

use vstd::prelude::*;

verus! {

/// The value of the first binding of `k`, if any.
pub open spec fn alist_lookup<V>(s: Seq<(Seq<char>, V)>, k: Seq<char>) -> Option<V>
    decreases s.len(),
{
    if s.len() == 0 {
        None
    } else if s[0].0 == k {
        Some(s[0].1)
    } else {
        alist_lookup(s.subrange(1, s.len() as int), k)
    }
}

/// Replace the first binding of `k` by `v`, or append one if none exists.
pub open spec fn alist_upsert<V>(s: Seq<(Seq<char>, V)>, k: Seq<char>, v: V) -> Seq<(Seq<char>, V)>
    decreases s.len(),
{
    if s.len() == 0 {
        seq![(k, v)]
    } else if s[0].0 == k {
        seq![(k, v)] + s.subrange(1, s.len() as int)
    } else {
        seq![s[0]] + alist_upsert(s.subrange(1, s.len() as int), k, v)
    }
}

/// Upsert every binding of `src` into `dst`, left to right.
pub open spec fn alist_merge<V>(
    dst: Seq<(Seq<char>, V)>,
    src: Seq<(Seq<char>, V)>,
) -> Seq<(Seq<char>, V)>
    decreases src.len(),
{
    if src.len() == 0 {
        dst
    } else {
        alist_merge(alist_upsert(dst, src[0].0, src[0].1), src.subrange(1, src.len() as int))
    }
}

/// After an upsert, the upserted key is bound to the new value and every other
/// key is bound as before.
pub proof fn lemma_upsert_lookup<V>(s: Seq<(Seq<char>, V)>, k: Seq<char>, v: V, q: Seq<char>)
    ensures
        alist_lookup(alist_upsert(s, k, v), q) == if q == k {
            Some(v)
        } else {
            alist_lookup(s, q)
        },
    decreases s.len(),
{
    let u = alist_upsert(s, k, v);
    if s.len() == 0 {
        assert(u == seq![(k, v)]);
        assert(u.subrange(1, 1) =~= Seq::<(Seq<char>, V)>::empty());
        assert(u[0] == (k, v));
        assert(u[0].0 == k && u[0].1 == v);
        if q == k {
            assert(alist_lookup(u, q) == Some(v));
        } else {
            assert(alist_lookup(u, q) == alist_lookup(u.subrange(1, 1), q));
            assert(alist_lookup(u, q) == alist_lookup(s, q));
        }
    } else if s[0].0 == k {
        let rest = s.subrange(1, s.len() as int);
        assert(u == seq![(k, v)] + rest);
        assert(u[0] == (k, v));
        assert(u[0].0 == k && u[0].1 == v);
        assert(u.subrange(1, u.len() as int) =~= rest);
        if q == k {
            assert(alist_lookup(u, q) == Some(v));
        } else {
            assert(alist_lookup(u, q) == alist_lookup(rest, q));
            assert(alist_lookup(s, q) == alist_lookup(rest, q));
        }
    } else {
        let rest = s.subrange(1, s.len() as int);
        lemma_upsert_lookup(rest, k, v, q);
        assert(u == seq![s[0]] + alist_upsert(rest, k, v));
        assert(u[0] == s[0]);
        assert(u.subrange(1, u.len() as int) =~= alist_upsert(rest, k, v));
        if q == u[0].0 {
            assert(alist_lookup(u, q) == Some(u[0].1));
            assert(alist_lookup(s, q) == Some(s[0].1));
        } else {
            assert(alist_lookup(u, q) == alist_lookup(alist_upsert(rest, k, v), q));
            assert(alist_lookup(s, q) == alist_lookup(rest, q));
        }
    }
}

/// A lookup passes over any prefix that does not bind the key.
pub proof fn lemma_lookup_skip<V>(s: Seq<(Seq<char>, V)>, k: Seq<char>, i: int)
    requires
        0 <= i <= s.len(),
        forall|j: int| 0 <= j < i ==> (#[trigger] s[j]).0 != k,
    ensures
        alist_lookup(s, k) == alist_lookup(s.subrange(i, s.len() as int), k),
    decreases i,
{
    if i == 0 {
        assert(s.subrange(0, s.len() as int) =~= s);
    } else {
        let rest = s.subrange(1, s.len() as int);
        assert forall|j: int| 0 <= j < i - 1 implies (#[trigger] rest[j]).0 != k by {
            assert(rest[j] == s[j + 1]);
        }
        lemma_lookup_skip(rest, k, i - 1);
        assert(rest.subrange(i - 1, rest.len() as int) =~= s.subrange(i, s.len() as int));
        assert(s[0].0 != k);
    }
}

/// An upsert of a key first bound at position `i` updates that position.
pub proof fn lemma_upsert_at<V>(s: Seq<(Seq<char>, V)>, k: Seq<char>, v: V, i: int)
    requires
        0 <= i < s.len(),
        s[i].0 == k,
        forall|j: int| 0 <= j < i ==> (#[trigger] s[j]).0 != k,
    ensures
        alist_upsert(s, k, v) == s.update(i, (k, v)),
    decreases i,
{
    if i == 0 {
        assert(alist_upsert(s, k, v) == seq![(k, v)] + s.subrange(1, s.len() as int));
        assert(seq![(k, v)] + s.subrange(1, s.len() as int) =~= s.update(0, (k, v)));
    } else {
        let rest = s.subrange(1, s.len() as int);
        assert(rest[i - 1] == s[i]);
        assert forall|j: int| 0 <= j < i - 1 implies (#[trigger] rest[j]).0 != k by {
            assert(rest[j] == s[j + 1]);
        }
        lemma_upsert_at(rest, k, v, i - 1);
        assert(alist_upsert(s, k, v) == seq![s[0]] + rest.update(i - 1, (k, v)));
        assert(seq![s[0]] + rest.update(i - 1, (k, v)) =~= s.update(i, (k, v)));
    }
}

/// An upsert of an unbound key appends the binding.
pub proof fn lemma_upsert_absent<V>(s: Seq<(Seq<char>, V)>, k: Seq<char>, v: V)
    requires
        forall|j: int| 0 <= j < s.len() ==> (#[trigger] s[j]).0 != k,
    ensures
        alist_upsert(s, k, v) == s.push((k, v)),
    decreases s.len(),
{
    if s.len() == 0 {
        assert(seq![(k, v)] =~= s.push((k, v)));
    } else {
        let rest = s.subrange(1, s.len() as int);
        assert forall|j: int| 0 <= j < rest.len() implies (#[trigger] rest[j]).0 != k by {
            assert(rest[j] == s[j + 1]);
        }
        lemma_upsert_absent(rest, k, v);
        assert(alist_upsert(s, k, v) == seq![s[0]] + rest.push((k, v)));
        assert(seq![s[0]] + rest.push((k, v)) =~= s.push((k, v)));
    }
}

/// Find the value bound to `k`, if any.
pub fn alist_get<'a, V: DeepView>(m: &'a Vec<(String, V)>, k: &String) -> (r: Option<&'a V>)
    ensures
        match r {
            Some(x) => alist_lookup(m.deep_view(), k@) == Some(x.deep_view()),
            None => alist_lookup(m.deep_view(), k@) is None,
        },
{
    let ghost s = m.deep_view();
    let mut i: usize = 0;
    while i < m.len()
        invariant
            i <= m.len(),
            forall|j: int| 0 <= j < i as int ==> (#[trigger] s[j]).0 != k@,
        decreases m@.len() - i,
    {
        proof {
            assert(s[i as int] == (m@[i as int].0@, m@[i as int].1.deep_view()));
        }
        let hit = {
            let ki = &m[i].0;
            *ki == *k
        };
        if hit {
            proof {
                lemma_lookup_skip(s, k@, i as int);
                assert(s.subrange(i as int, s.len() as int)[0] == s[i as int]);
            }
            return Some(&m[i].1);
        }
        i = i + 1;
    }
    proof {
        lemma_lookup_skip(s, k@, m@.len() as int);
        assert(s.subrange(s.len() as int, s.len() as int) =~= Seq::<(Seq<char>, V::V)>::empty());
    }
    None
}

/// Bind `k` to `v`, overwriting the first earlier binding if one exists.
pub fn alist_set<V: DeepView>(m: &mut Vec<(String, V)>, k: String, v: V)
    ensures
        final(m).deep_view() == alist_upsert(old(m).deep_view(), k@, v.deep_view()),
{
    let ghost s = old(m).deep_view();
    let mut i: usize = 0;
    while i < m.len()
        invariant
            i <= m.len(),
            *m == *old(m),
            forall|j: int| 0 <= j < i as int ==> (#[trigger] s[j]).0 != k@,
        decreases m@.len() - i,
    {
        proof {
            assert(s[i as int] == (m@[i as int].0@, m@[i as int].1.deep_view()));
        }
        let hit = {
            let ki = &m[i].0;
            *ki == k
        };
        if hit {
            proof {
                lemma_upsert_at(s, k@, v.deep_view(), i as int);
            }
            m.set(i, (k, v));
            proof {
                assert(m.deep_view() =~= s.update(i as int, (k@, v.deep_view())));
            }
            return ;
        }
        i = i + 1;
    }
    proof {
        lemma_upsert_absent(s, k@, v.deep_view());
    }
    m.push((k, v));
    proof {
        assert(m.deep_view() =~= s.push((k@, v.deep_view())));
    }
}

/// Upserting the same binding twice changes nothing the second time: the final
/// mapping holds that key exactly once-worth of effect, with that value.
pub proof fn lemma_upsert_idempotent<V>(s: Seq<(Seq<char>, V)>, k: Seq<char>, v: V)
    ensures
        alist_upsert(alist_upsert(s, k, v), k, v) == alist_upsert(s, k, v),
    decreases s.len(),
{
    let u = alist_upsert(s, k, v);
    if s.len() == 0 {
        assert(u == seq![(k, v)]);
        assert(u[0].0 == k);
        assert(alist_upsert(u, k, v) == seq![(k, v)] + u.subrange(1, 1));
        assert(seq![(k, v)] + u.subrange(1, 1) =~= u);
    } else if s[0].0 == k {
        let rest = s.subrange(1, s.len() as int);
        assert(u == seq![(k, v)] + rest);
        assert(u[0].0 == k);
        assert(u.subrange(1, u.len() as int) =~= rest);
        assert(alist_upsert(u, k, v) == seq![(k, v)] + rest);
    } else {
        let rest = s.subrange(1, s.len() as int);
        lemma_upsert_idempotent(rest, k, v);
        assert(u == seq![s[0]] + alist_upsert(rest, k, v));
        assert(u[0] == s[0]);
        assert(u.len() > 0);
        assert(u.subrange(1, u.len() as int) =~= alist_upsert(rest, k, v));
        assert(alist_upsert(u, k, v) == seq![s[0]] + alist_upsert(alist_upsert(rest, k, v), k, v));
    }
}

} // verus!

//! Verified character and string helpers.

use vstd::prelude::*;

verus! {

/// The code point of `c` with an ASCII capital letter folded to lower case.
pub open spec fn spec_lower_u32(c: char) -> u32 {
    if 'A' <= c && c <= 'Z' {
        (c as u32 + 32) as u32
    } else {
        c as u32
    }
}

/// Case-insensitive (ASCII) equality of two character sequences.
pub open spec fn spec_ci_eq(a: Seq<char>, b: Seq<char>) -> bool {
    a.len() == b.len() && forall|i: int|
        0 <= i < a.len() ==> spec_lower_u32(#[trigger] a[i]) == spec_lower_u32(b[i])
}

/// Compare two character vectors for equality up to ASCII case.
pub fn chars_ci_eq(a: &Vec<char>, b: &Vec<char>) -> (r: bool)
    ensures
        r == spec_ci_eq(a@, b@),
{
    if a.len() != b.len() {
        return false;
    }
    let mut i: usize = 0;
    while i < a.len()
        invariant
            i <= a.len(),
            a@.len() == b@.len(),
            forall|j: int| 0 <= j < i as int ==> spec_lower_u32(#[trigger] a@[j]) == spec_lower_u32(
                b@[j],
            ),
        decreases a@.len() - i,
    {
        let ca = a[i];
        let cb = b[i];
        let la: u32 = if 'A' <= ca && ca <= 'Z' {
            ca as u32 + 32
        } else {
            ca as u32
        };
        let lb: u32 = if 'A' <= cb && cb <= 'Z' {
            cb as u32 + 32
        } else {
            cb as u32
        };
        if la != lb {
            return false;
        }
        i = i + 1;
    }
    true
}

/// Compare two character vectors for exact equality.
pub fn chars_eq(a: &Vec<char>, b: &Vec<char>) -> (r: bool)
    ensures
        r == (a@ == b@),
{
    if a.len() != b.len() {
        proof {
            assert(a@.len() != b@.len());
        }
        return false;
    }
    let mut i: usize = 0;
    while i < a.len()
        invariant
            i <= a.len(),
            a@.len() == b@.len(),
            forall|j: int| 0 <= j < i as int ==> #[trigger] a@[j] == b@[j],
        decreases a@.len() - i,
    {
        if a[i] != b[i] {
            return false;
        }
        i = i + 1;
    }
    proof {
        assert(a@ =~= b@);
    }
    true
}

/// Whether `n` occurs as a contiguous run of characters in `h`.
pub open spec fn spec_str_contains(h: Seq<char>, n: Seq<char>) -> bool {
    exists|i: int| 0 <= i <= h.len() - n.len() && #[trigger] h.subrange(i, i + n.len() as int) == n
}

/// Whether `h` begins with `n`.
pub open spec fn spec_starts_with(h: Seq<char>, n: Seq<char>) -> bool {
    n.len() <= h.len() && h.subrange(0, n.len() as int) == n
}

/// Whether `h` ends with `n`.
pub open spec fn spec_ends_with(h: Seq<char>, n: Seq<char>) -> bool {
    n.len() <= h.len() && h.subrange(h.len() - n.len(), h.len() as int) == n
}

/// Whether `n` matches the characters of `h` starting at `i`.
fn matches_at(h: &Vec<char>, n: &Vec<char>, i: usize) -> (r: bool)
    requires
        i + n@.len() <= h@.len(),
        h@.len() <= usize::MAX,
    ensures
        r == (h@.subrange(i as int, i as int + n@.len() as int) == n@),
{
    let mut j: usize = 0;
    while j < n.len()
        invariant
            j <= n@.len(),
            i + n@.len() <= h@.len(),
            h@.len() <= usize::MAX,
            forall|k: int| 0 <= k < j as int ==> h@[i as int + k] == n@[k],
        decreases n@.len() - j,
    {
        if h[i + j] != n[j] {
            proof {
                assert(h@.subrange(i as int, i as int + n@.len() as int)[j as int] != n@[j as int]);
            }
            return false;
        }
        j = j + 1;
    }
    proof {
        assert(h@.subrange(i as int, i as int + n@.len() as int) =~= n@);
    }
    true
}

/// Check whether `n` occurs as a contiguous run of characters in `h`.
pub fn chars_contains(h: &Vec<char>, n: &Vec<char>) -> (r: bool)
    ensures
        r == spec_str_contains(h@, n@),
{
    if n.len() > h.len() {
        return false;
    }
    let last = h.len() - n.len();
    let mut i: usize = 0;
    loop
        invariant
            i <= last,
            n@.len() <= h@.len(),
            last == h@.len() - n@.len(),
            forall|ii: int|
                0 <= ii < i as int ==> #[trigger] h@.subrange(ii, ii + n@.len() as int) != n@,
        decreases last - i,
    {
        if matches_at(h, n, i) {
            return true;
        }
        if i == last {
            proof {
                assert forall|ii: int|
                    0 <= ii <= h@.len() - n@.len() implies #[trigger] h@.subrange(
                    ii,
                    ii + n@.len() as int,
                ) != n@ by {}
            }
            return false;
        }
        i = i + 1;
    }
}

/// Check whether `h` begins with `n`.
pub fn chars_starts_with(h: &Vec<char>, n: &Vec<char>) -> (r: bool)
    ensures
        r == spec_starts_with(h@, n@),
{
    if n.len() > h.len() {
        return false;
    }
    matches_at(h, n, 0)
}

/// Check whether `h` ends with `n`.
pub fn chars_ends_with(h: &Vec<char>, n: &Vec<char>) -> (r: bool)
    ensures
        r == spec_ends_with(h@, n@),
{
    if n.len() > h.len() {
        return false;
    }
    matches_at(h, n, h.len() - n.len())
}

} // verus!

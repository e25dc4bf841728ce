//! Ascending lists of offsets: insertion that keeps the order, and the
//! binary search that membership tests rest on.

use vstd::prelude::*;

verus! {

/// Whether `s` is in ascending order (equal neighbours allowed).
pub open spec fn is_sorted(s: Seq<u64>) -> bool {
    forall|i: int, j: int| 0 <= i <= j < s.len() ==> s[i] <= s[j]
}

/// Whether `x` occurs in the ascending list `v`, by binary search.
pub fn contains_sorted(v: &Vec<u64>, x: u64) -> (found: bool)
    requires
        is_sorted(v@),
    ensures
        found == v@.contains(x),
{
    let mut lo: usize = 0;
    let mut hi: usize = v.len();
    while lo < hi
        invariant
            lo <= hi <= v.len(),
            is_sorted(v@),
            forall|k: int| 0 <= k < lo ==> v@[k] < x,
            forall|k: int| hi <= k < v.len() ==> v@[k] > x,
        decreases hi - lo,
    {
        let mid: usize = lo + (hi - lo) / 2;
        let y: u64 = v[mid];
        if y == x {
            return true;
        } else if y < x {
            lo = mid + 1;
        } else {
            hi = mid;
        }
    }
    assert(!v@.contains(x)) by {
        if v@.contains(x) {
            let k = choose|k: int| 0 <= k < v@.len() && v@[k] == x;
            assert(k < lo || k >= hi);
        }
    }
    false
}

/// Puts `x` into the ascending list `v`, behind the entries that are not
/// larger, so that the list stays ascending.
pub fn insert_sorted(v: &mut Vec<u64>, x: u64)
    requires
        is_sorted(old(v)@),
    ensures
        is_sorted(final(v)@),
        final(v)@.to_multiset() == old(v)@.to_multiset().insert(x),
        final(v)@.len() == old(v)@.len() + 1,
{
    let mut at: usize = v.len();
    while at > 0 && v[at - 1] > x
        invariant
            at <= v.len(),
            *v == *old(v),
            forall|k: int| at <= k < v.len() ==> v@[k] > x,
        decreases at,
    {
        at = at - 1;
    }
    proof {
        vstd::seq_lib::to_multiset_insert(v@, at as int, x);
    }
    v.insert(at, x);
}

/// The entries of `v` in ascending order.
pub fn sort_ascending(v: &Vec<u64>) -> (out: Vec<u64>)
    ensures
        is_sorted(out@),
        out@.to_multiset() == v@.to_multiset(),
        out@.len() == v@.len(),
{
    let mut out: Vec<u64> = Vec::new();
    let mut i: usize = 0;
    assert(out@ =~= v@.subrange(0, 0));
    while i < v.len()
        invariant
            i <= v.len(),
            is_sorted(out@),
            out@.len() == i,
            out@.to_multiset() == v@.subrange(0, i as int).to_multiset(),
        decreases v.len() - i,
    {
        insert_sorted(&mut out, v[i]);
        proof {
            assert(v@.subrange(0, i + 1) =~= v@.subrange(0, i as int).push(v@[i as int]));
            vstd::seq_lib::to_multiset_build(v@.subrange(0, i as int), v@[i as int]);
        }
        i = i + 1;
    }
    assert(v@.subrange(0, v.len() as int) =~= v@);
    out
}

} // verus!

//! Stable keyed ordering of index lists.
//!
//! Both draw-order sorts of the core are instances of the same scheme: each
//! element is a `(key, position)` pair whose position component is unique,
//! so the lexicographic order on pairs is total and antisymmetric, the
//! sorted permutation is unique, and sorting is stable by construction.

use vstd::prelude::*;
use vstd::relations::sorted_by;
use vstd::seq_lib::group_to_multiset_ensures;

verus! {

/// Ascending lexicographic order on `(key, position)` pairs.
pub open spec fn spec_asc_leq(a: (u64, usize), b: (u64, usize)) -> bool {
    a.0 < b.0 || (a.0 == b.0 && a.1 <= b.1)
}

/// Descending order by key, ascending by position among equal keys.
pub open spec fn spec_desc_leq(a: (u128, usize), b: (u128, usize)) -> bool {
    a.0 > b.0 || (a.0 == b.0 && a.1 <= b.1)
}

/// Whether `a` precedes or equals `b` in ascending key order.
fn asc_leq(a: (u64, usize), b: (u64, usize)) -> (r: bool)
    ensures
        r == spec_asc_leq(a, b),
{
    a.0 < b.0 || (a.0 == b.0 && a.1 <= b.1)
}

/// Whether `a` precedes or equals `b` in descending key order.
fn desc_leq(a: (u128, usize), b: (u128, usize)) -> (r: bool)
    ensures
        r == spec_desc_leq(a, b),
{
    a.0 > b.0 || (a.0 == b.0 && a.1 <= b.1)
}

/// Sort pairs ascending by key; equal keys keep ascending position order.
/// The result is the unique permutation of the input sorted that way.
pub fn sort_pairs_asc(v: Vec<(u64, usize)>) -> (r: Vec<(u64, usize)>)
    ensures
        sorted_by(r@, |a: (u64, usize), b: (u64, usize)| spec_asc_leq(a, b)),
        r@.to_multiset() == v@.to_multiset(),
        r@.len() == v@.len(),
{
    broadcast use group_to_multiset_ensures;
    broadcast use vstd::seq_lib::to_multiset_insert;

    let ghost leq = |a: (u64, usize), b: (u64, usize)| spec_asc_leq(a, b);
    let n = v.len();
    let mut out: Vec<(u64, usize)> = Vec::new();
    let mut i: usize = 0;
    while i < n
        invariant
            n == v@.len(),
            i <= n,
            leq == (|a: (u64, usize), b: (u64, usize)| spec_asc_leq(a, b)),
            sorted_by(out@, leq),
            out@.to_multiset() == v@.subrange(0, i as int).to_multiset(),
            out@.len() == i,
        decreases n - i,
    {
        let x = v[i];
        let m = out.len();
        let mut p: usize = 0;
        while p < m && asc_leq(out[p], x)
            invariant
                m == out@.len(),
                p <= m,
                forall|q: int| 0 <= q < p ==> spec_asc_leq(out@[q], x),
            decreases m - p,
        {
            p = p + 1;
        }
        let ghost before = out@;
        out.insert(p, x);
        proof {
            assert forall|a: int, b: int| 0 <= a < b < out@.len() implies leq(
                out@[a],
                out@[b],
            ) by {
                if b < p {
                } else if a < p && b == p {
                } else if a == p {
                    assert(!spec_asc_leq(before[p as int], x));
                    assert(out@[b] == before[b - 1]);
                    if b - 1 > p {
                        assert(leq(before[p as int], before[b - 1]));
                    }
                } else if a < p {
                    assert(out@[a] == before[a]);
                    assert(out@[b] == before[b - 1]);
                } else {
                    assert(out@[a] == before[a - 1]);
                    assert(out@[b] == before[b - 1]);
                }
            }
            assert(out@ == before.insert(p as int, x));
            vstd::seq_lib::to_multiset_insert(before, p as int, x);
            assert(v@.subrange(0, i + 1 as int) =~= v@.subrange(0, i as int).push(x));
            vstd::seq_lib::to_multiset_build(v@.subrange(0, i as int), x);
        }
        i = i + 1;
    }
    proof {
        assert(v@.subrange(0, n as int) =~= v@);
    }
    out
}

/// Sort pairs descending by key; equal keys keep ascending position order.
/// The result is the unique permutation of the input sorted that way: this
/// is the stable farthest-first order the transparent pass draws in.
pub fn sort_pairs_desc(v: Vec<(u128, usize)>) -> (r: Vec<(u128, usize)>)
    ensures
        sorted_by(r@, |a: (u128, usize), b: (u128, usize)| spec_desc_leq(a, b)),
        r@.to_multiset() == v@.to_multiset(),
        r@.len() == v@.len(),
{
    broadcast use group_to_multiset_ensures;
    broadcast use vstd::seq_lib::to_multiset_insert;

    let ghost leq = |a: (u128, usize), b: (u128, usize)| spec_desc_leq(a, b);
    let n = v.len();
    let mut out: Vec<(u128, usize)> = Vec::new();
    let mut i: usize = 0;
    while i < n
        invariant
            n == v@.len(),
            i <= n,
            leq == (|a: (u128, usize), b: (u128, usize)| spec_desc_leq(a, b)),
            sorted_by(out@, leq),
            out@.to_multiset() == v@.subrange(0, i as int).to_multiset(),
            out@.len() == i,
        decreases n - i,
    {
        let x = v[i];
        let m = out.len();
        let mut p: usize = 0;
        while p < m && desc_leq(out[p], x)
            invariant
                m == out@.len(),
                p <= m,
                forall|q: int| 0 <= q < p ==> spec_desc_leq(out@[q], x),
            decreases m - p,
        {
            p = p + 1;
        }
        let ghost before = out@;
        out.insert(p, x);
        proof {
            assert forall|a: int, b: int| 0 <= a < b < out@.len() implies leq(
                out@[a],
                out@[b],
            ) by {
                if b < p {
                } else if a < p && b == p {
                } else if a == p {
                    assert(!spec_desc_leq(before[p as int], x));
                    assert(out@[b] == before[b - 1]);
                    if b - 1 > p {
                        assert(leq(before[p as int], before[b - 1]));
                    }
                } else if a < p {
                    assert(out@[a] == before[a]);
                    assert(out@[b] == before[b - 1]);
                } else {
                    assert(out@[a] == before[a - 1]);
                    assert(out@[b] == before[b - 1]);
                }
            }
            assert(out@ == before.insert(p as int, x));
            vstd::seq_lib::to_multiset_insert(before, p as int, x);
            assert(v@.subrange(0, i + 1 as int) =~= v@.subrange(0, i as int).push(x));
            vstd::seq_lib::to_multiset_build(v@.subrange(0, i as int), x);
        }
        i = i + 1;
    }
    proof {
        assert(v@.subrange(0, n as int) =~= v@);
    }
    out
}

} // verus!

//! Ordering items by an integer rank (a hook's priority, an entity's layer).

use vstd::prelude::*;
use vstd::multiset::Multiset;
use vstd::seq_lib::*;

verus! {

/// `s` is ordered by its ranks, smallest first.
pub open spec fn sorted_by_rank<T>(s: Seq<(i32, T)>) -> bool {
    forall|i: int, j: int| 0 <= i <= j < s.len() ==> (#[trigger] s[i]).0 <= (#[trigger] s[j]).0
}

/// Orders ranked items by rank, keeping exactly the items given.
///
/// An item goes behind every item of equal rank already placed, so items of
/// equal rank come out in the reverse of the order they were given.
pub fn sort_by_rank<T>(v: Vec<(i32, T)>) -> (r: Vec<(i32, T)>)
    ensures
        r@.to_multiset() == v@.to_multiset(),
        sorted_by_rank(r@),
        r@.len() == v@.len(),
{
    broadcast use vstd::multiset::group_multiset_axioms;
    broadcast use group_to_multiset_ensures;

    let ghost v0 = v@;
    let mut rest = v;
    let mut out: Vec<(i32, T)> = Vec::new();
    assert(out@.to_multiset() =~= Multiset::empty());
    assert(out@.to_multiset().add(rest@.to_multiset()) =~= v0.to_multiset());
    while rest.len() > 0
        invariant
            out@.to_multiset().add(rest@.to_multiset()) == v0.to_multiset(),
            sorted_by_rank(out@),
        decreases rest@.len(),
    {
        let ghost rest_before = rest@;
        let ghost out_before = out@;
        let x = rest.pop().unwrap();
        assert(rest_before == rest@.push(x));
        proof { to_multiset_build(rest@, x); }
        let mut p: usize = 0;
        while p < out.len() && out[p].0 <= x.0
            invariant
                p <= out@.len(),
                out@ == out_before,
                forall|j: int| 0 <= j < p ==> (#[trigger] out@[j]).0 <= x.0,
            decreases out@.len() - p,
        {
            p = p + 1;
        }
        proof {
            assert forall|j: int| p <= j < out@.len() implies x.0 < (#[trigger] out@[j]).0 by {
                assert(out@[p as int].0 <= out@[j].0);
            }
        }
        out.insert(p, x);
        proof {
            to_multiset_insert(out_before, p as int, x);
            assert(out@ == out_before.insert(p as int, x));
            assert forall|i: int, j: int| 0 <= i <= j < out@.len() implies (#[trigger] out@[i]).0
                <= (#[trigger] out@[j]).0 by {
                if i < p && j < p {
                    assert(out@[i] == out_before[i] && out@[j] == out_before[j]);
                } else if i < p && j == p {
                    assert(out@[i] == out_before[i]);
                } else if i < p {
                    assert(out@[i] == out_before[i] && out@[j] == out_before[j - 1]);
                } else if i == p && j > p {
                    assert(out@[j] == out_before[j - 1]);
                } else if i > p {
                    assert(out@[i] == out_before[i - 1] && out@[j] == out_before[j - 1]);
                }
            }
            assert(out@.to_multiset().add(rest@.to_multiset()) =~= v0.to_multiset());
        }
    }
    assert(rest@ =~= Seq::<(i32, T)>::empty());
    assert(rest@.to_multiset() =~= Multiset::empty());
    assert(out@.to_multiset() =~= v0.to_multiset());
    proof {
        to_multiset_len(out@);
        to_multiset_len(v0);
    }
    out
}

} // verus!

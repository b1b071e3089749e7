//! Ascending sort of cycle and tick samples, proved to agree with the
//! mathematical sort of the input sequence.

use vstd::prelude::*;
use vstd::relations::{sorted_by, total_ordering};

verus! {

broadcast use vstd::seq_lib::group_to_multiset_ensures;

/// The ascending order on `u64` samples.
pub open spec fn ascending() -> spec_fn(u64, u64) -> bool {
    |a: u64, b: u64| a <= b
}

/// The ascending rearrangement of `s`.
pub open spec fn sorted(s: Seq<u64>) -> Seq<u64> {
    s.sort_by(ascending())
}

/// `<=` on `u64` is a total order.
pub proof fn lemma_ascending_is_total()
    ensures
        total_ordering(ascending()),
{
}

/// The sorted rearrangement of `s` is ascending, has the same elements,
/// and keeps the length of `s`.
pub proof fn lemma_sorted_properties(s: Seq<u64>)
    ensures
        sorted_by(sorted(s), ascending()),
        sorted(s).to_multiset() == s.to_multiset(),
        sorted(s).len() == s.len(),
        forall|i: int, j: int| 0 <= i <= j < s.len() ==> sorted(s)[i] <= sorted(s)[j],
{
    lemma_ascending_is_total();
    s.lemma_sort_by_ensures(ascending());
    assert(sorted(s).to_multiset().len() == s.to_multiset().len());
    assert forall|i: int, j: int| 0 <= i <= j < s.len() implies sorted(s)[i] <= sorted(s)[j] by {
        if i < j {
            assert((ascending())(sorted(s)[i], sorted(s)[j]));
        }
    }
}

/// An ascending sequence with the same elements as `s` is the sorted
/// rearrangement of `s`.
pub proof fn lemma_sorted_unique(s: Seq<u64>, t: Seq<u64>)
    requires
        sorted_by(t, ascending()),
        t.to_multiset() == s.to_multiset(),
    ensures
        t == sorted(s),
{
    lemma_ascending_is_total();
    s.lemma_sort_by_ensures(ascending());
    vstd::seq_lib::lemma_sorted_unique(t, sorted(s), ascending());
}

/// Two sequences with the same elements have the same sorted rearrangement.
pub proof fn lemma_sorted_depends_only_on_elements(s: Seq<u64>, t: Seq<u64>)
    requires
        s.to_multiset() == t.to_multiset(),
    ensures
        sorted(s) == sorted(t),
{
    lemma_sorted_properties(s);
    lemma_sorted_unique(t, sorted(s));
}

/// Returns the elements of `values` in ascending order.
pub fn sort_values(values: &[u64]) -> (out: Vec<u64>)
    ensures
        out@ == sorted(values@),
{
    let mut out: Vec<u64> = Vec::new();
    let mut k: usize = 0;
    while k < values.len()
        invariant
            k <= values@.len(),
            out@.to_multiset() == values@.subrange(0, k as int).to_multiset(),
            sorted_by(out@, ascending()),
        decreases values@.len() - k,
    {
        let x = values[k];
        let mut p: usize = 0;
        while p < out.len() && out[p] <= x
            invariant
                p <= out@.len(),
                forall|j: int| 0 <= j < p ==> out@[j] <= x,
            decreases out@.len() - p,
        {
            p = p + 1;
        }
        proof {
            assert forall|j: int| p <= j < out@.len() implies x < out@[j] by {
                assert((ascending())(out@[p as int], out@[j]) || j == p);
            }
        }
        let ghost before = out@;
        out.insert(p, x);
        proof {
            assert(values@.subrange(0, k + 1) == values@.subrange(0, k as int).push(x));
            assert forall|i: int, j: int| 0 <= i < j < out@.len() implies (ascending())(
                out@[i],
                out@[j],
            ) by {
                if j < p {
                    assert((ascending())(before[i], before[j]));
                } else if j == p {
                } else if i < p {
                    assert(out@[j] == before[j - 1]);
                } else if i == p {
                    assert(out@[j] == before[j - 1]);
                } else {
                    assert((ascending())(before[i - 1], before[j - 1]));
                }
            }
        }
        k = k + 1;
    }
    proof {
        assert(values@.subrange(0, values@.len() as int) == values@);
        lemma_sorted_unique(values@, out@);
    }
    out
}

} // verus!

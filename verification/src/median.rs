//! Median aggregation: a verified sort of the submitted values and the
//! integer median over the sorted copy (middle element, or the average of the
//! two middle elements rounded toward zero).

use vstd::prelude::*;
use crate::types::copy_values;
use vstd::multiset::Multiset;

verus! {

broadcast use vstd::seq_lib::group_to_multiset_ensures, vstd::multiset::group_multiset_axioms;

/// Non-decreasing order.
pub open spec fn sorted(s: Seq<u64>) -> bool {
    forall|i: int, j: int| 0 <= i <= j < s.len() ==> s[i] <= s[j]
}

/// The median of an already sorted, non-empty sequence.
pub open spec fn median_of_sorted(s: Seq<u64>) -> u64
    recommends
        s.len() > 0,
        sorted(s),
{
    if s.len() % 2 == 1 {
        s[s.len() as int / 2]
    } else {
        (((s[s.len() as int / 2 - 1] as int) + (s[s.len() as int / 2] as int)) / 2) as u64
    }
}

/// `ans` is the median of the values in `subs`: some sorted rearrangement of
/// `subs` has `ans` as its middle element (or middle average).
pub open spec fn is_median_of(ans: u64, subs: Seq<u64>) -> bool {
    exists|t: Seq<u64>|
        #![trigger sorted(t)]
        sorted(t) && t.to_multiset() == subs.to_multiset() && t.len() == subs.len() && ans
            == median_of_sorted(t)
}

/// Index of a least element of a non-empty vector.
fn min_index(v: &Vec<u64>) -> (r: usize)
    requires
        v@.len() > 0,
    ensures
        r < v@.len(),
        forall|j: int| 0 <= j < v@.len() ==> v@[r as int] <= v@[j],
{
    let mut mi: usize = 0;
    let mut i: usize = 1;
    while i < v.len()
        invariant
            mi < v@.len(),
            i <= v@.len(),
            forall|j: int| 0 <= j < i ==> v@[mi as int] <= v@[j],
        decreases v@.len() - i,
    {
        if v[i] < v[mi] {
            mi = i;
        }
        i = i + 1;
    }
    mi
}

/// Sorts a copy of the input in non-decreasing order.
pub fn sort_values(v: &Vec<u64>) -> (r: Vec<u64>)
    ensures
        sorted(r@),
        r@.to_multiset() == v@.to_multiset(),
        r@.len() == v@.len(),
{
    let mut rem = copy_values(v);
    let mut out: Vec<u64> = Vec::new();
    proof {
        assert(out@.to_multiset().add(rem@.to_multiset()) =~= v@.to_multiset());
    }
    while rem.len() > 0
        invariant
            sorted(out@),
            out@.to_multiset().add(rem@.to_multiset()) == v@.to_multiset(),
            out@.len() + rem@.len() == v@.len(),
            forall|i: int, j: int|
                0 <= i < out@.len() && 0 <= j < rem@.len() ==> out@[i] <= rem@[j],
        decreases rem@.len(),
    {
        let ghost old_out = out@;
        let ghost old_rem = rem@;
        let mi = min_index(&rem);
        let x = rem.remove(mi);
        out.push(x);
        proof {
            assert(rem@ == old_rem.remove(mi as int));
            assert(rem@.to_multiset() == old_rem.to_multiset().remove(x));
            assert(out@.to_multiset() == old_out.to_multiset().insert(x));
            assert(old_rem.contains(x));
            assert(old_rem.to_multiset().count(x) > 0);
            assert(out@.to_multiset().add(rem@.to_multiset()) =~= old_out.to_multiset().add(
                old_rem.to_multiset(),
            ));
            assert(forall|j: int| 0 <= j < rem@.len() ==> old_rem.contains(rem@[j]));
            assert(forall|j: int| 0 <= j < out@.len() - 1 ==> out@[j] == old_out[j]);
            assert(sorted(out@));
        }
    }
    proof {
        assert(rem@.to_multiset() =~= Multiset::<u64>::empty());
        assert(out@.to_multiset() =~= out@.to_multiset().add(rem@.to_multiset()));
    }
    out
}

/// The median of a non-empty vector of values.
pub fn median(v: &Vec<u64>) -> (r: u64)
    requires
        v@.len() > 0,
    ensures
        is_median_of(r, v@),
{
    let s = sort_values(v);
    let n = s.len();
    let r: u64 = if n % 2 == 1 {
        s[n / 2]
    } else {
        let a = s[n / 2 - 1];
        let b = s[n / 2];
        let sum: u128 = a as u128 + b as u128;
        (sum / 2) as u64
    };
    proof {
        assert(r == median_of_sorted(s@));
        assert(sorted(s@) && s@.to_multiset() == v@.to_multiset() && s@.len() == v@.len() && r
            == median_of_sorted(s@));
    }
    r
}

} // verus!

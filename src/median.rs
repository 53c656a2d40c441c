//! The middle of a set of values, for the median.
use crate::number::{rank, rank_of};
use vstd::prelude::*;

verus! {

pub open spec fn sorted_by_rank(s: Seq<u64>) -> bool {
    forall|i: int, j: int| 0 <= i <= j < s.len() ==> rank(s[i]) <= rank(s[j])
}

/// The middle element of `s`, or its two middle elements when its length is
/// even; none for an empty `s`.
pub open spec fn middle(s: Seq<u64>) -> Seq<u64> {
    if s.len() == 0 {
        Seq::empty()
    } else if s.len() % 2 == 1 {
        seq![s[(s.len() / 2) as int]]
    } else {
        seq![s[s.len() / 2 - 1], s[(s.len() / 2) as int]]
    }
}

/// Relies on `slice::sort_unstable_by_key`: it reorders the elements so that
/// the keys that the closure gives come in ascending order.
#[verifier::external_body]
fn sort_by_rank(v: Vec<u64>) -> (r: Vec<u64>)
    ensures
        r@.to_multiset() == v@.to_multiset(),
        sorted_by_rank(r@),
{
    let mut v = v;
    v.sort_unstable_by_key(|b| rank_of(*b));
    v
}

/// The values in the middle once `values` (bit patterns of binary64 values)
/// are sorted: one for an odd count, two for an even count, none for none.
/// The median is the mean of what comes back.
pub fn middle_values(values: Vec<u64>) -> (r: Vec<u64>)
    ensures
        exists|s: Seq<u64>|
            s.to_multiset() == values@.to_multiset() && sorted_by_rank(s) && r@ == middle(s),
{
    let sorted = sort_by_rank(values);
    let n = sorted.len();
    let mut r: Vec<u64> = Vec::new();
    if n % 2 == 1 {
        r.push(sorted[n / 2]);
    } else if n > 0 {
        r.push(sorted[n / 2 - 1]);
        r.push(sorted[n / 2]);
    }
    assert(r@ =~= middle(sorted@));
    r
}

} // verus!

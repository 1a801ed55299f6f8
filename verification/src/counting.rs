//! Counting arguments on sequences of distinct numbers.

use vstd::prelude::*;
use vstd::set_lib::{lemma_int_range, lemma_subset_equality, set_int_range};

verus! {

/// Pigeonhole: `n` distinct numbers below `n` are all the numbers below `n`.
pub proof fn lemma_distinct_fill(s: Seq<int>, n: int)
    requires
        s.len() == n,
        s.no_duplicates(),
        forall|i: int| 0 <= i < s.len() ==> 0 <= #[trigger] s[i] < n,
    ensures
        forall|p: int| 0 <= p < n ==> s.contains(p),
{
    broadcast use vstd::seq_lib::seq_to_set_is_finite;

    s.unique_seq_to_set();
    lemma_int_range(0, n);
    let held = s.to_set();
    let range = set_int_range(0, n);
    assert forall|x: int| held.contains(x) implies range.contains(x) by {
        let i = choose|i: int| 0 <= i < s.len() && s[i] == x;
        assert(0 <= s[i] < n);
    }
    lemma_subset_equality(held, range);
    assert forall|p: int| 0 <= p < n implies s.contains(p) by {
        assert(range.contains(p));
        assert(held.contains(p));
    }
}

/// Distinct numbers below `n` that leave none out are `n` numbers.
pub proof fn lemma_distinct_cover(s: Seq<int>, n: int)
    requires
        0 <= n,
        s.no_duplicates(),
        forall|i: int| 0 <= i < s.len() ==> 0 <= #[trigger] s[i] < n,
        forall|p: int| 0 <= p < n ==> s.contains(p),
    ensures
        s.len() == n,
{
    broadcast use vstd::seq_lib::seq_to_set_is_finite;

    s.unique_seq_to_set();
    lemma_int_range(0, n);
    let held = s.to_set();
    let range = set_int_range(0, n);
    assert forall|x: int| held.contains(x) == range.contains(x) by {
        if held.contains(x) {
            let i = choose|i: int| 0 <= i < s.len() && s[i] == x;
            assert(0 <= s[i] < n);
        }
        if range.contains(x) {
            assert(s.contains(x));
        }
    }
    assert(held =~= range);
}

} // verus!

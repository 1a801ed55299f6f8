//! The order in which buckets are placed: fullest first.

use vstd::prelude::*;
use crate::counting::lemma_distinct_cover;

verus! {

/// Whether bucket `a` is placed before bucket `b`: the fuller one goes
/// first, and of two equally full ones the one that comes first.
pub open spec fn precedes(sizes: Seq<usize>, a: int, b: int) -> bool {
    sizes[a] > sizes[b] || (sizes[a] == sizes[b] && a < b)
}

/// Whether `order` lists every bucket once, each before all those that it
/// precedes. There is one such order for given sizes.
pub open spec fn is_greedy_order(sizes: Seq<usize>, order: Seq<usize>) -> bool {
    &&& order.len() == sizes.len()
    &&& forall|k: int| 0 <= k < order.len() ==> (#[trigger] order[k]) < sizes.len()
    &&& forall|j: int, k: int|
        0 <= j < k < order.len() ==> precedes(sizes, #[trigger] order[j] as int, #[trigger] order[k] as int)
    &&& forall|b: usize| b < sizes.len() ==> #[trigger] order.contains(b)
}

/// The orders `a` and `b` agree below `k`.
proof fn lemma_same_prefix(sizes: Seq<usize>, a: Seq<usize>, b: Seq<usize>, k: int)
    requires
        is_greedy_order(sizes, a),
        is_greedy_order(sizes, b),
        0 <= k <= sizes.len(),
    ensures
        forall|j: int| 0 <= j < k ==> a[j] == b[j],
    decreases k,
{
    if k > 0 {
        lemma_same_prefix(sizes, a, b, k - 1);
        let last = k - 1;
        // Where each order has what the other has at `last`.
        assert(a[last] < sizes.len() && b[last] < sizes.len());
        assert(a.contains(b[last]));
        assert(b.contains(a[last]));
        let i = choose|i: int| 0 <= i < a.len() && a[i] == b[last];
        let j = choose|j: int| 0 <= j < b.len() && b[j] == a[last];
        if i < last {
            assert(a[i] == b[i]);
            assert(precedes(sizes, b[i] as int, b[last] as int));
        }
        if j < last {
            assert(a[j] == b[j]);
            assert(precedes(sizes, a[j] as int, a[last] as int));
        }
        if i > last && j > last {
            assert(precedes(sizes, a[last] as int, a[i] as int));
            assert(precedes(sizes, b[last] as int, b[j] as int));
        }
    }
}

/// There is one greedy order for given sizes: two orders that both list
/// every bucket once, fuller before emptier and equals as they come, are
/// the same.
pub proof fn lemma_greedy_order_unique(sizes: Seq<usize>, a: Seq<usize>, b: Seq<usize>)
    requires
        is_greedy_order(sizes, a),
        is_greedy_order(sizes, b),
    ensures
        a == b,
{
    lemma_same_prefix(sizes, a, b, sizes.len() as int);
    assert(a =~= b);
}

/// The buckets listed so far while the level `level` is scanned up to `upto`.
spec fn listed(sizes: Seq<usize>, level: usize, upto: int, b: int) -> bool {
    sizes[b] > level || (sizes[b] == level && b < upto)
}

proof fn lemma_order_len(sizes: Seq<usize>, order: Seq<usize>)
    requires
        sizes.len() <= usize::MAX,
        forall|k: int| 0 <= k < order.len() ==> (#[trigger] order[k]) < sizes.len(),
        forall|j: int, k: int|
            0 <= j < k < order.len() ==> precedes(
                sizes,
                #[trigger] order[j] as int,
                #[trigger] order[k] as int,
            ),
        forall|b: usize| b < sizes.len() ==> #[trigger] order.contains(b),
    ensures
        order.len() == sizes.len(),
{
    let s = order.map_values(|x: usize| x as int);
    assert forall|i: int, j: int| 0 <= i < s.len() && 0 <= j < s.len() && i != j implies s[i]
        != s[j] by {
        if i < j {
            assert(precedes(sizes, order[i] as int, order[j] as int));
        } else {
            assert(precedes(sizes, order[j] as int, order[i] as int));
        }
    }
    assert forall|p: int| 0 <= p < sizes.len() implies s.contains(p) by {
        let b = p as usize;
        assert(order.contains(b));
        let k = choose|k: int| 0 <= k < order.len() && order[k] == b;
        assert(s[k] == p);
    }
    assert forall|i: int| 0 <= i < s.len() implies 0 <= #[trigger] s[i] < sizes.len() by {
        assert(order[i] < sizes.len());
    }
    lemma_distinct_cover(s, sizes.len() as int);
}

/// Orders the buckets for placement by their sizes, fullest first and
/// equally full ones as they come.
pub fn greedy_order(sizes: &Vec<usize>) -> (order: Vec<usize>)
    ensures
        is_greedy_order(sizes@, order@),
{
    let n: usize = sizes.len();
    let mut top: usize = 0;
    let mut b: usize = 0;
    while b < n
        invariant
            b <= n,
            n == sizes.len(),
            forall|c: int| 0 <= c < b ==> sizes@[c] <= top,
        decreases n - b,
    {
        if sizes[b] > top {
            top = sizes[b];
        }
        b += 1;
    }
    let mut order: Vec<usize> = Vec::new();
    let mut level: usize = top;
    let mut done: bool = false;
    while !done
        invariant
            n == sizes.len(),
            level <= top,
            forall|c: int| 0 <= c < n ==> sizes@[c] <= top,
            forall|k: int| 0 <= k < order.len() ==> (#[trigger] order@[k]) < n,
            forall|j: int, k: int|
                0 <= j < k < order.len() ==> precedes(
                    sizes@,
                    #[trigger] order@[j] as int,
                    #[trigger] order@[k] as int,
                ),
            !done ==> forall|k: int|
                0 <= k < order.len() ==> sizes@[(#[trigger] order@[k]) as int] > level,
            !done ==> forall|c: usize|
                c < n && sizes@[c as int] > level ==> #[trigger] order@.contains(c),
            done ==> forall|c: usize| c < n ==> #[trigger] order@.contains(c),
        decreases level + (if done { 0int } else { 1int }),
    {
        let mut b: usize = 0;
        while b < n
            invariant
                b <= n,
                n == sizes.len(),
                forall|k: int| 0 <= k < order.len() ==> (#[trigger] order@[k]) < n,
                forall|j: int, k: int|
                    0 <= j < k < order.len() ==> precedes(
                        sizes@,
                        #[trigger] order@[j] as int,
                        #[trigger] order@[k] as int,
                    ),
                forall|k: int|
                    0 <= k < order.len() ==> listed(
                        sizes@,
                        level,
                        b as int,
                        (#[trigger] order@[k]) as int,
                    ),
                forall|c: usize|
                    c < n && listed(sizes@, level, b as int, c as int) ==> #[trigger] order@.contains(
                        c,
                    ),
            decreases n - b,
        {
            if sizes[b] == level {
                let ghost before = order@;
                order.push(b);
                proof {
                    assert forall|c: usize|
                        c < n && listed(sizes@, level, b + 1, c as int) implies #[trigger] order@.contains(
                        c,
                    ) by {
                        if c == b {
                            assert(order@[before.len() as int] == b);
                        } else {
                            assert(before.contains(c));
                            let k = choose|k: int| 0 <= k < before.len() && before[k] == c;
                            assert(order@[k] == c);
                        }
                    }
                }
            }
            b += 1;
        }
        if level == 0 {
            done = true;
        } else {
            level -= 1;
        }
    }
    proof {
        lemma_order_len(sizes@, order@);
    }
    order
}

} // verus!

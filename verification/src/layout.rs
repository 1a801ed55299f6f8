//! Sequences of sequences laid out one after the other.

use vstd::prelude::*;

verus! {

/// The parts one after the other.
pub open spec fn flat<A>(parts: Seq<Seq<A>>) -> Seq<A>
    decreases parts.len(),
{
    if parts.len() == 0 {
        Seq::empty()
    } else {
        flat(parts.drop_last()) + parts.last()
    }
}

/// Finds the part and the place in it of the element at `at` of the layout.
/// The layout places of two elements are the same only if part and place are.
pub proof fn lemma_locate<A>(parts: Seq<Seq<A>>, at: int) -> (found: (int, int))
    requires
        0 <= at < flat(parts).len(),
    ensures
        0 <= found.0 < parts.len(),
        0 <= found.1 < parts[found.0].len(),
        flat(parts)[at] == parts[found.0][found.1],
        at == flat(parts.take(found.0)).len() + found.1,
    decreases parts.len(),
{
    let rest = parts.drop_last();
    if at < flat(rest).len() {
        let found = lemma_locate(rest, at);
        assert(rest.take(found.0) =~= parts.take(found.0));
        found
    } else {
        assert(parts.take(parts.len() - 1) =~= rest);
        (parts.len() - 1, at - flat(rest).len())
    }
}

/// A part is no longer than the layout.
pub proof fn lemma_part_fits<A>(parts: Seq<Seq<A>>, b: int)
    requires
        0 <= b < parts.len(),
    ensures
        parts[b].len() <= flat(parts).len(),
    decreases parts.len(),
{
    if b < parts.len() - 1 {
        lemma_part_fits(parts.drop_last(), b);
    }
}

/// Replacing one part changes the length of the layout by as much as the
/// length of that part.
pub proof fn lemma_flat_len_update<A>(parts: Seq<Seq<A>>, b: int, part: Seq<A>)
    requires
        0 <= b < parts.len(),
    ensures
        flat(parts.update(b, part)).len() == flat(parts).len() - parts[b].len() + part.len(),
    decreases parts.len(),
{
    let changed = parts.update(b, part);
    if b < parts.len() - 1 {
        lemma_flat_len_update(parts.drop_last(), b, part);
        assert(changed.drop_last() =~= parts.drop_last().update(b, part));
    } else {
        assert(changed.drop_last() =~= parts.drop_last());
    }
}

/// Layouts of parts with the same lengths have the same length.
pub proof fn lemma_flat_len_same_shape<A, B>(x: Seq<Seq<A>>, y: Seq<Seq<B>>)
    requires
        x.len() == y.len(),
        forall|b: int| 0 <= b < x.len() ==> (#[trigger] x[b]).len() == y[b].len(),
    ensures
        flat(x).len() == flat(y).len(),
    decreases x.len(),
{
    if x.len() > 0 {
        assert(x.last().len() == y.last().len()) by {
            assert(x[x.len() - 1].len() == y[x.len() - 1].len());
        }
        assert forall|b: int| 0 <= b < x.drop_last().len() implies (#[trigger] x.drop_last()[b]).len()
            == y.drop_last()[b].len() by {
            assert(x[b].len() == y[b].len());
        }
        lemma_flat_len_same_shape(x.drop_last(), y.drop_last());
    }
}

} // verus!

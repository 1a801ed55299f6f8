//! What a table is, as a mathematical value, and the laws that hold of it.

use vstd::prelude::*;
use crate::bucket::{
    candidates,
    fits,
    holds_key,
    holds_payload,
    insert_outcome,
    marked,
    placed,
    slot,
    BucketView,
    InsertOutcome,
};
use crate::counting::lemma_distinct_fill;
use crate::first_order::FOHash;
use crate::hash::{HashKey, HashSeed};
use crate::item::{ItemView, Keyed};
use crate::layout::{flat, lemma_flat_len_update, lemma_locate};
use crate::second_order::SOHash;

verus! {

/// The bucket that `key` belongs to among `n` buckets. Only the low 32 bits
/// of a key take part.
pub open spec fn home(key: HashKey, n: nat) -> int {
    (key.low32() % (n as u32)) as int
}

/// The items of each bucket.
pub open spec fn slots(buckets: Seq<BucketView>) -> Seq<Seq<ItemView>> {
    buckets.map_values(|b: BucketView| b.items)
}

/// The payloads and keys of each bucket.
pub open spec fn contents(buckets: Seq<BucketView>) -> Seq<Seq<Keyed>> {
    buckets.map_values(|b: BucketView| b.keyed())
}

/// `n` buckets that hold nothing.
pub open spec fn no_items(n: nat) -> Seq<Seq<Keyed>> {
    Seq::new(n, |b: int| Seq::<Keyed>::empty())
}

/// The buckets after `new` was offered to its home bucket.
pub open spec fn ingest(held: Seq<Seq<Keyed>>, new: Keyed) -> Seq<Seq<Keyed>> {
    let b = home(new.key, held.len());
    if insert_outcome(held[b], new) is Inserted {
        held.update(b, held[b].push(new))
    } else {
        held
    }
}

/// The buckets after each of `items` was offered in turn.
pub open spec fn ingest_all(held: Seq<Seq<Keyed>>, items: Seq<Keyed>) -> Seq<Seq<Keyed>>
    decreases items.len(),
{
    if items.len() == 0 {
        held
    } else {
        ingest(ingest_all(held, items.drop_last()), items.last())
    }
}

/// Whether every item lies in the bucket that its key belongs to.
pub open spec fn at_home(held: Seq<Seq<Keyed>>) -> bool {
    forall|b: int, i: int|
        0 <= b < held.len() && 0 <= i < held[b].len() ==> home(
            (#[trigger] held[b][i]).key,
            held.len(),
        ) == b
}

/// Whether the items of each bucket are told apart by their keys and by
/// their payloads.
pub open spec fn distinguishable(held: Seq<Seq<Keyed>>) -> bool {
    forall|b: int, i: int, j: int|
        0 <= b < held.len() && 0 <= i < j < held[b].len() ==> (#[trigger] held[b][i]).key != (
        #[trigger] held[b][j]).key && held[b][i].data != held[b][j].data
}

/// A table: its buckets, the hashes it was built with, and its size.
pub struct TableView {
    pub buckets: Seq<BucketView>,
    pub fo_hash: FOHash,
    pub so_hash: SOHash,
    pub m: nat,
}

impl TableView {
    /// Whether the table holds an item at place `i` of bucket `b`.
    pub open spec fn has(self, b: int, i: int) -> bool {
        0 <= b < self.buckets.len() && 0 <= i < self.buckets[b].items.len()
    }

    /// The final position of the item at place `i` of bucket `b`.
    pub open spec fn pos(self, b: int, i: int) -> int {
        self.buckets[b].items[i].final_pos as int
    }

    /// Whether `item` is one of the table's items.
    pub open spec fn holds(self, item: ItemView) -> bool {
        exists|b: int, i: int| self.has(b, i) && (#[trigger] self.buckets[b].items[i]) == item
    }

    /// Whether some item has the final position `p`.
    pub open spec fn taken(self, p: int) -> bool {
        exists|b: int, i: int| self.has(b, i) && #[trigger] self.pos(b, i) == p
    }

    /// Every final position is below `m`.
    pub open spec fn in_range(self) -> bool {
        forall|b: int, i: int| self.has(b, i) ==> 0 <= #[trigger] self.pos(b, i) < self.m
    }

    /// No two items of the whole table share a final position.
    pub open spec fn injective(self) -> bool {
        forall|b1: int, i1: int, b2: int, i2: int|
            self.has(b1, i1) && self.has(b2, i2) && #[trigger] self.pos(b1, i1) == #[trigger] self.pos(
                b2,
                i2,
            ) ==> b1 == b2 && i1 == i2
    }

    /// Every position below `m` is some item's.
    pub open spec fn onto(self) -> bool {
        forall|p: int| 0 <= p < self.m ==> #[trigger] self.taken(p)
    }

    /// Every final position is the one that the lookup computes: the slot
    /// that the bucket's hash, with the bucket's seed, gives the item's key.
    pub open spec fn by_formula(self) -> bool {
        forall|b: int, i: int|
            self.has(b, i) ==> #[trigger] self.pos(b, i) == slot(
                self.buckets[b].so_hash,
                self.buckets[b].items[i].key,
                self.m,
            )
    }

    /// Every bucket's hash is the table's second-order hash under a seed of
    /// the bucket's own.
    pub open spec fn one_family(self) -> bool {
        forall|b: int|
            0 <= b < self.buckets.len() ==> (#[trigger] self.buckets[b]).so_hash.with_seed(
                self.so_hash.seed_of(),
            ) == self.so_hash
    }

    /// Every bucket that holds items has a seed of the width that its hash
    /// works on, and every empty bucket has the table's hash as it is.
    pub open spec fn seeded(self) -> bool {
        forall|b: int|
            0 <= b < self.buckets.len() ==> if (#[trigger] self.buckets[b]).items.len() == 0 {
                self.buckets[b].so_hash == self.so_hash
            } else {
                self.buckets[b].so_hash.well_seeded()
            }
    }

    /// How many items the table holds.
    pub open spec fn survivors(self) -> nat {
        flat(slots(self.buckets)).len()
    }

    /// Whether the table is a minimal perfect hash table: `m` counts its
    /// items, their final positions are exactly the numbers below `m`, each
    /// once, and the lookup finds every item again, in its bucket by its
    /// key and in its slot by the bucket's seed. A first-order hash with
    /// wide keys goes with a wide second-order hash.
    pub open spec fn perfect(self) -> bool {
        &&& self.m == self.survivors()
        &&& self.m <= u32::MAX
        &&& self.buckets.len() <= u32::MAX
        &&& self.in_range()
        &&& self.injective()
        &&& self.onto()
        &&& self.by_formula()
        &&& self.one_family()
        &&& self.seeded()
        &&& at_home(contents(self.buckets))
        &&& distinguishable(contents(self.buckets))
        &&& self.fo_hash.wide() ==> self.so_hash.wide()
    }
}

/// The second-order hash that goes with `fo`: the one asked for, unless the
/// keys are wide and it is not; then the wide multiply-xor-shift mixer with
/// its initial seed takes its place.
pub open spec fn promoted(fo: FOHash, so: SOHash) -> SOHash {
    if fo.wide() && !so.wide() {
        SOHash::MXF64(crate::second_order::MXF64 { seed: HashSeed::Bits64(0) })
    } else {
        so
    }
}

/// Wide first-order keys always go with a wide second-order hash, and a
/// second-order hash that is asked for with narrow keys is the one used.
pub proof fn lemma_promotion(fo: FOHash, so: SOHash)
    ensures
        fo.wide() ==> promoted(fo, so).wide(),
        !fo.wide() || so.wide() ==> promoted(fo, so) == so,
        promoted(fo, so).seed_of() == so.seed_of() || promoted(fo, so).seed_of() == HashSeed::Bits64(
            0,
        ),
{
}

/// Pigeonhole: where `m` items have distinct final positions below `m`,
/// every position below `m` is taken. The final positions are then exactly
/// the numbers `0, 1, ..., m - 1`, without repeats and without gaps.
pub proof fn lemma_positions_fill(t: TableView)
    requires
        t.m == t.survivors(),
        t.in_range(),
        t.injective(),
    ensures
        t.onto(),
{
    let parts = slots(t.buckets);
    let positions = flat(parts).map_values(|v: ItemView| v.final_pos as int);
    assert forall|f: int| 0 <= f < positions.len() implies 0 <= #[trigger] positions[f] < t.m by {
        let at = lemma_locate(parts, f);
        assert(positions[f] == t.pos(at.0, at.1));
    }
    assert forall|f: int, g: int|
        0 <= f < positions.len() && 0 <= g < positions.len() && f != g implies positions[f]
        != positions[g] by {
        let at = lemma_locate(parts, f);
        let bt = lemma_locate(parts, g);
        assert(positions[f] == t.pos(at.0, at.1));
        assert(positions[g] == t.pos(bt.0, bt.1));
    }
    lemma_distinct_fill(positions, t.m as int);
    assert forall|p: int| 0 <= p < t.m implies #[trigger] t.taken(p) by {
        assert(positions.contains(p));
        let f = choose|f: int| 0 <= f < positions.len() && positions[f] == p;
        let at = lemma_locate(parts, f);
        assert(t.has(at.0, at.1) && t.pos(at.0, at.1) == p);
    }
}

/// The final positions of a perfect table of `m` items are exactly the
/// numbers `0, 1, ..., m - 1`: a number is some item's final position if and
/// only if it is below `m`, and no two items have the same.
pub proof fn lemma_bijection(t: TableView)
    requires
        t.perfect(),
    ensures
        t.m == t.survivors(),
        forall|p: int| #[trigger] t.taken(p) <==> 0 <= p < t.m,
        forall|b1: int, i1: int, b2: int, i2: int|
            t.has(b1, i1) && t.has(b2, i2) && (b1 != b2 || i1 != i2) ==> #[trigger] t.pos(b1, i1)
                != #[trigger] t.pos(b2, i2),
{
    assert forall|p: int| #[trigger] t.taken(p) implies 0 <= p < t.m by {
        let (b, i) = choose|b: int, i: int| t.has(b, i) && #[trigger] t.pos(b, i) == p;
        assert(0 <= t.pos(b, i) < t.m);
    }
}

/// An item offered to the buckets makes them hold one item more, or none:
/// a dropped item takes nothing else with it. Items stay in the buckets of
/// their keys, told apart by key and by payload.
pub proof fn lemma_ingest_step(held: Seq<Seq<Keyed>>, new: Keyed)
    requires
        0 < held.len() <= u32::MAX,
        at_home(held),
        distinguishable(held),
    ensures
        ingest(held, new).len() == held.len(),
        at_home(ingest(held, new)),
        distinguishable(ingest(held, new)),
        flat(ingest(held, new)).len() == flat(held).len() + (if insert_outcome(
            held[home(new.key, held.len())],
            new,
        ) is Inserted {
            1int
        } else {
            0int
        }),
{
    let b = home(new.key, held.len());
    let after = ingest(held, new);
    if insert_outcome(held[b], new) is Inserted {
        lemma_flat_len_update(held, b, held[b].push(new));
        assert forall|c: int, i: int| 0 <= c < after.len() && 0 <= i < after[c].len() implies home(
            (#[trigger] after[c][i]).key,
            after.len(),
        ) == c by {
            if c == b && i == held[b].len() {
            } else {
                assert(after[c][i] == held[c][i]);
            }
        }
        assert forall|c: int, i: int, j: int|
            0 <= c < after.len() && 0 <= i < j < after[c].len() implies (#[trigger] after[c][i]).key
            != (#[trigger] after[c][j]).key && after[c][i].data != after[c][j].data by {
            if c == b && j == held[b].len() {
                assert(after[c][i] == held[b][i]);
                assert(!holds_payload(held[b], new.data));
                assert(!holds_key(held[b], new.key));
            } else {
                assert(after[c][i] == held[c][i]);
                assert(after[c][j] == held[c][j]);
            }
        }
    }
}

/// No more items survive than were offered, and where any were offered,
/// at least one survives.
pub proof fn lemma_survivors_bounded(n: nat, items: Seq<Keyed>)
    requires
        0 < n <= u32::MAX,
    ensures
        ingest_all(no_items(n), items).len() == n,
        at_home(ingest_all(no_items(n), items)),
        distinguishable(ingest_all(no_items(n), items)),
        flat(ingest_all(no_items(n), items)).len() <= items.len(),
        items.len() > 0 ==> flat(ingest_all(no_items(n), items)).len() >= 1,
    decreases items.len(),
{
    if items.len() == 0 {
        lemma_no_items(n);
    } else {
        lemma_survivors_bounded(n, items.drop_last());
        lemma_ingest_step(ingest_all(no_items(n), items.drop_last()), items.last());
        if items.len() == 1 {
            assert(items.drop_last() =~= Seq::empty());
            assert(ingest_all(no_items(n), items.drop_last()) == no_items(n));
            let b = home(items.last().key, n);
            assert(no_items(n)[b].len() == 0);
        }
    }
}

/// Every item that is kept is one of those that were offered.
pub proof fn lemma_kept_were_offered(n: nat, items: Seq<Keyed>)
    requires
        0 < n <= u32::MAX,
    ensures
        forall|b: int, i: int|
            0 <= b < n && 0 <= i < ingest_all(no_items(n), items)[b].len() ==> items.contains(
                #[trigger] ingest_all(no_items(n), items)[b][i],
            ),
    decreases items.len(),
{
    let after = ingest_all(no_items(n), items);
    if items.len() > 0 {
        let before = ingest_all(no_items(n), items.drop_last());
        lemma_survivors_bounded(n, items.drop_last());
        lemma_kept_were_offered(n, items.drop_last());
        let home_of_last = home(items.last().key, n);
        assert forall|b: int, i: int| 0 <= b < n && 0 <= i < after[b].len() implies items.contains(
            #[trigger] after[b][i],
        ) by {
            if after != before && b == home_of_last && i == before[b].len() {
                assert(items[items.len() - 1] == after[b][i]);
            } else {
                assert(after[b][i] == before[b][i]);
                assert(items.drop_last().contains(before[b][i]));
                let k = choose|k: int|
                    0 <= k < items.drop_last().len() && items.drop_last()[k] == before[b][i];
                assert(items[k] == after[b][i]);
            }
        }
    }
}

/// Empty buckets hold no item.
pub proof fn lemma_no_items(n: nat)
    ensures
        flat(no_items(n)).len() == 0,
        at_home(no_items(n)),
        distinguishable(no_items(n)),
    decreases n,
{
    if n > 0 {
        lemma_no_items((n - 1) as nat);
        assert(no_items(n).drop_last() =~= no_items((n - 1) as nat));
    }
}

/// The lookup of a perfect table finds every item: the item's key leads to
/// the item's bucket, the bucket's seed leads to the item's final position,
/// and no other item of the table has that key in this bucket or that
/// position anywhere.
pub proof fn lemma_lookup_finds(t: TableView, b: int, i: int)
    requires
        t.perfect(),
        t.has(b, i),
    ensures
        home(t.buckets[b].items[i].key, t.buckets.len()) == b,
        slot(t.buckets[b].so_hash, t.buckets[b].items[i].key, t.m) == t.pos(b, i),
        0 <= t.pos(b, i) < t.m,
        forall|j: int|
            0 <= j < t.buckets[b].items.len() && j != i ==> (#[trigger] t.buckets[b].items[j]).key
                != t.buckets[b].items[i].key,
        forall|c: int, j: int|
            t.has(c, j) && (c != b || j != i) ==> #[trigger] t.pos(c, j) != t.pos(b, i),
{
    let held = contents(t.buckets);
    assert(held[b][i].key == t.buckets[b].items[i].key);
    assert(0 <= t.pos(b, i) < t.m);
    assert forall|j: int| 0 <= j < t.buckets[b].items.len() && j != i implies (
    #[trigger] t.buckets[b].items[j]).key != t.buckets[b].items[i].key by {
        if j < i {
            assert(held[b][j].key != held[b][i].key);
        } else {
            assert(held[b][i].key != held[b][j].key);
        }
    }
}

/// What holds while buckets are placed one after the other: the items of
/// the buckets in `done` have their final positions, by the formula, in
/// occupied slots below `m`, no two of them in the same, and those buckets
/// have seeds of the width of their hashes.
pub open spec fn settled(buckets: Seq<BucketView>, occupied: Seq<bool>, done: Set<int>, m: nat) -> bool {
    &&& forall|b: int, i: int|
        done.contains(b) && 0 <= b < buckets.len() && 0 <= i < buckets[b].items.len() ==> {
            let item = #[trigger] buckets[b].items[i];
            &&& item.final_pos < m
            &&& occupied[item.final_pos as int]
            &&& item.final_pos == slot(buckets[b].so_hash, item.key, m)
        }
    &&& forall|b1: int, i1: int, b2: int, i2: int|
        done.contains(b1) && done.contains(b2) && 0 <= b1 < buckets.len() && 0 <= b2
            < buckets.len() && 0 <= i1 < buckets[b1].items.len() && 0 <= i2
            < buckets[b2].items.len() && (#[trigger] buckets[b1].items[i1]).final_pos == (
        #[trigger] buckets[b2].items[i2]).final_pos ==> b1 == b2 && i1 == i2
    &&& forall|b: int|
        done.contains(b) && 0 <= b < buckets.len() && (#[trigger] buckets[b]).items.len() > 0
            ==> buckets[b].so_hash.well_seeded()
}

/// The bucket `bucket` with its items placed under `seed`.
pub open spec fn placed_bucket(bucket: BucketView, seed: HashSeed, m: nat) -> BucketView {
    BucketView {
        items: placed(bucket.items, candidates(bucket.so_hash.with_seed(seed), bucket.items, m)),
        so_hash: bucket.so_hash.with_seed(seed),
    }
}

/// Placing one more bucket under a seed that fits keeps what was settled:
/// the buckets placed before keep their final positions and their slots,
/// and the new bucket's items take slots that were free.
pub proof fn lemma_settle(
    buckets: Seq<BucketView>,
    occupied: Seq<bool>,
    done: Set<int>,
    b: int,
    seed: HashSeed,
)
    requires
        0 <= b < buckets.len(),
        occupied.len() <= u32::MAX,
        buckets[b].items.len() > 0 ==> occupied.len() > 0,
        settled(buckets, occupied, done, occupied.len()),
        fits(
            candidates(buckets[b].so_hash.with_seed(seed), buckets[b].items, occupied.len()),
            occupied,
        ),
        buckets[b].so_hash.with_seed(seed).well_seeded(),
    ensures
        settled(
            buckets.update(b, placed_bucket(buckets[b], seed, occupied.len())),
            marked(
                occupied,
                candidates(buckets[b].so_hash.with_seed(seed), buckets[b].items, occupied.len()),
            ),
            done.insert(b),
            occupied.len(),
        ),
        forall|p: int| 0 <= p < occupied.len() && occupied[p] ==> marked(
            occupied,
            candidates(buckets[b].so_hash.with_seed(seed), buckets[b].items, occupied.len()),
        )[p],
{
    let m = occupied.len();
    let so = buckets[b].so_hash.with_seed(seed);
    let cands = candidates(so, buckets[b].items, m);
    let after = buckets.update(b, placed_bucket(buckets[b], seed, m));
    let taken = marked(occupied, cands);
    let all = done.insert(b);
    assert forall|c: int, i: int|
        all.contains(c) && 0 <= c < after.len() && 0 <= i < after[c].items.len() implies {
        let item = #[trigger] after[c].items[i];
        &&& item.final_pos < m
        &&& taken[item.final_pos as int]
        &&& item.final_pos == slot(after[c].so_hash, item.key, m)
    } by {
        if c == b {
            assert(after[c].items[i].final_pos == cands[i]);
            assert(cands.contains(cands[i]));
        } else {
            assert(after[c].items[i] == buckets[c].items[i]);
        }
    }
    assert forall|b1: int, i1: int, b2: int, i2: int|
        all.contains(b1) && all.contains(b2) && 0 <= b1 < after.len() && 0 <= b2 < after.len() && 0
            <= i1 < after[b1].items.len() && 0 <= i2 < after[b2].items.len() && (
        #[trigger] after[b1].items[i1]).final_pos == (#[trigger] after[b2].items[i2]).final_pos implies b1
        == b2 && i1 == i2 by {
        if b1 == b && b2 == b {
            assert(cands[i1] == cands[i2]);
        } else if b1 == b {
            assert(after[b2].items[i2] == buckets[b2].items[i2]);
            assert(occupied[buckets[b2].items[i2].final_pos as int]);
            assert(!occupied[cands[i1] as int]);
        } else if b2 == b {
            assert(after[b1].items[i1] == buckets[b1].items[i1]);
            assert(occupied[buckets[b1].items[i1].final_pos as int]);
            assert(!occupied[cands[i2] as int]);
        } else {
            assert(after[b1].items[i1] == buckets[b1].items[i1]);
            assert(after[b2].items[i2] == buckets[b2].items[i2]);
        }
    }
}

} // verus!

//! Buckets: the items that share one first-order slot, and the second-order
//! hash that places them.

use vstd::prelude::*;
use crate::hash::{HashKey, HashSeed};
use crate::item::{Item, ItemValue, ItemView, Keyed};
use crate::second_order::{SOHash, MXF};

verus! {

/// What became of an item offered to a bucket.
#[derive(Debug, Clone, Copy, PartialEq, Eq, Structural)]
pub enum InsertOutcome {
    /// The item was added at the end of the bucket.
    Inserted,
    /// The bucket already holds an item with an equal payload.
    Duplicate,
    /// The bucket already holds an item with another payload and an equal key.
    Collision,
}

/// Whether one of `held` has the payload `data`.
pub open spec fn holds_payload(held: Seq<Keyed>, data: ItemValue) -> bool {
    exists|j: int| 0 <= j < held.len() && (#[trigger] held[j]).data == data
}

/// Whether one of `held` has the key `key`.
pub open spec fn holds_key(held: Seq<Keyed>, key: HashKey) -> bool {
    exists|j: int| 0 <= j < held.len() && (#[trigger] held[j]).key == key
}

/// What becomes of `new` when it is offered to a bucket that holds `held`.
/// An equal payload is looked for first.
pub open spec fn insert_outcome(held: Seq<Keyed>, new: Keyed) -> InsertOutcome {
    if holds_payload(held, new.data) {
        InsertOutcome::Duplicate
    } else if holds_key(held, new.key) {
        InsertOutcome::Collision
    } else {
        InsertOutcome::Inserted
    }
}

/// The slot that the second-order hash `so` gives to `key` in a table of
/// `m` slots. Only the low 32 bits of the hashed key take part.
pub open spec fn slot(so: SOHash, key: HashKey, m: nat) -> u32 {
    so.hash_of(key).low32() % (m as u32)
}

/// The slots that `so` gives to each of `items`, in their order.
pub open spec fn candidates(so: SOHash, items: Seq<ItemView>, m: nat) -> Seq<u32> {
    Seq::new(items.len(), |i: int| slot(so, items[i].key, m))
}

/// Whether the slots `cands` can be taken: no two are the same, and none
/// is occupied.
pub open spec fn fits(cands: Seq<u32>, occupied: Seq<bool>) -> bool {
    &&& cands.no_duplicates()
    &&& forall|i: int| 0 <= i < cands.len() ==> !occupied[#[trigger] cands[i] as int]
}

/// The occupancy after the slots `cands` were taken.
pub open spec fn marked(occupied: Seq<bool>, cands: Seq<u32>) -> Seq<bool> {
    Seq::new(occupied.len(), |p: int| occupied[p] || cands.contains(p as u32))
}

/// `items`, each in the slot that `cands` gives it.
pub open spec fn placed(items: Seq<ItemView>, cands: Seq<u32>) -> Seq<ItemView> {
    Seq::new(items.len(), |i: int| items[i].placed_at(cands[i]))
}

/// What a bucket holds: its items in the order they came, and its hash.
pub struct BucketView {
    pub items: Seq<ItemView>,
    pub so_hash: SOHash,
}

impl BucketView {
    /// The payloads and keys of the items, without their slots.
    pub open spec fn keyed(self) -> Seq<Keyed> {
        self.items.map_values(|v: ItemView| v.keyed())
    }
}

/// The items that share one first-order slot, with the hash that places
/// them.
#[derive(Debug)]
pub struct Bucket {
    items: Vec<Item>,
    so_hash: SOHash,
}

impl View for Bucket {
    type V = BucketView;

    closed spec fn view(&self) -> BucketView {
        BucketView { items: self.items@.map_values(|it: Item| it@), so_hash: self.so_hash }
    }
}

impl Clone for Bucket {
    fn clone(&self) -> (copy: Self)
        ensures
            copy@ == self@,
    {
        let mut items: Vec<Item> = Vec::new();
        let mut i: usize = 0;
        while i < self.items.len()
            invariant
                i <= self.items.len(),
                items.len() == i,
                forall|j: int| 0 <= j < i ==> (#[trigger] items[j])@ == self.items[j]@,
            decreases self.items.len() - i,
        {
            items.push(self.items[i].clone());
            i += 1;
        }
        let copy = Bucket { items, so_hash: self.so_hash };
        assert(copy@.items =~= self@.items);
        copy
    }
}

impl Default for Bucket {
    fn default() -> (bucket: Self)
        ensures
            bucket@ == (BucketView {
                items: Seq::empty(),
                so_hash: SOHash::MXF(MXF { seed: HashSeed::Bits64(0) }),
            }),
    {
        let bucket = Bucket { items: Vec::new(), so_hash: SOHash::MXF(MXF { seed: HashSeed::Bits64(0) }) };
        assert(bucket@.items =~= Seq::empty());
        bucket
    }
}

/// Taking one more slot marks that slot and no other.
proof fn lemma_marked_push(occupied: Seq<bool>, cands: Seq<u32>, pos: u32)
    requires
        pos < occupied.len() <= u32::MAX,
    ensures
        marked(occupied, cands.push(pos)) == marked(occupied, cands).update(pos as int, true),
{
    let longer = cands.push(pos);
    let a = marked(occupied, longer);
    let b = marked(occupied, cands).update(pos as int, true);
    assert forall|p: int| 0 <= p < occupied.len() implies a[p] == b[p] by {
        if cands.contains(p as u32) {
            let w = choose|w: int| 0 <= w < cands.len() && cands[w] == p as u32;
            assert(longer[w] == p as u32);
        }
        if p == pos {
            assert(longer[cands.len() as int] == pos);
        }
        if longer.contains(p as u32) && p != pos {
            let w = choose|w: int| 0 <= w < longer.len() && longer[w] == p as u32;
            assert(cands[w] == p as u32);
        }
    }
    assert(a =~= b);
}

/// Whether `x` is one of `v`.
fn holds(v: &Vec<u32>, x: u32) -> (found: bool)
    ensures
        found == v@.contains(x),
{
    let mut i: usize = 0;
    while i < v.len()
        invariant
            i <= v.len(),
            forall|j: int| 0 <= j < i ==> v@[j] != x,
        decreases v.len() - i,
    {
        if v[i] == x {
            return true;
        }
        i += 1;
    }
    false
}

impl Bucket {
    /// An empty bucket that will place its items with `so_hash`.
    pub fn new(so_hash: SOHash) -> (bucket: Bucket)
        ensures
            bucket@ == (BucketView { items: Seq::empty(), so_hash }),
    {
        let bucket = Bucket { items: Vec::new(), so_hash };
        assert(bucket@.items =~= Seq::empty());
        bucket
    }

    /// The bucket's hash, with the seed that was found for the bucket, or the
    /// seed it began with where none was looked for.
    pub fn so_hash(&self) -> (so: &SOHash)
        ensures
            *so == self@.so_hash,
    {
        &self.so_hash
    }

    /// How many items the bucket holds.
    pub fn len(&self) -> (n: usize)
        ensures
            n == self@.items.len(),
    {
        self.items.len()
    }

    /// The item at `index`, in the order of arrival.
    pub fn item(&self, index: usize) -> (item: &Item)
        requires
            index < self@.items.len(),
        ensures
            item@ == self@.items[index as int],
    {
        &self.items[index]
    }

    /// Offers `item` to the bucket. It is added unless the bucket already
    /// holds its payload or its key; a dropped item leaves the bucket as
    /// it was.
    pub fn try_insert(&mut self, item: Item) -> (outcome: InsertOutcome)
        ensures
            outcome == insert_outcome(old(self)@.keyed(), item@.keyed()),
            outcome is Inserted ==> final(self)@ == (BucketView {
                items: old(self)@.items.push(item@),
                so_hash: old(self)@.so_hash,
            }),
            !(outcome is Inserted) ==> final(self)@ == old(self)@,
    {
        let ghost held = self@.keyed();
        let mut i: usize = 0;
        while i < self.items.len()
            invariant
                i <= self.items.len(),
                held == self@.keyed(),
                forall|j: int| 0 <= j < i ==> (#[trigger] held[j]).data != item@.data,
            decreases self.items.len() - i,
        {
            if self.items[i].item_type().eq(item.item_type()) {
                assert(held[i as int].data == item@.data);
                return InsertOutcome::Duplicate;
            }
            i += 1;
        }
        let mut i: usize = 0;
        while i < self.items.len()
            invariant
                i <= self.items.len(),
                held == self@.keyed(),
                !holds_payload(held, item@.data),
                forall|j: int| 0 <= j < i ==> (#[trigger] held[j]).key != item@.key,
            decreases self.items.len() - i,
        {
            if self.items[i].key() == item.key() {
                assert(held[i as int].key == item@.key);
                return InsertOutcome::Collision;
            }
            i += 1;
        }
        let ghost before = self@;
        let ghost added = item@;
        self.items.push(item);
        assert(self@.items =~= before.items.push(added));
        InsertOutcome::Inserted
    }

    /// Tries `seed` on the bucket: each item is sent to the slot that the
    /// bucket's hash gives its key under `seed`, in a table of as many slots
    /// as `occupied` is long. The seed is taken if no two items share a slot
    /// and no slot is occupied; the bucket then keeps the seed, its items
    /// keep their slots, and the slots are marked. A seed that is not taken
    /// changes nothing. Slots that were occupied stay occupied either way.
    pub fn try_place(&mut self, seed: HashSeed, occupied: &mut Vec<bool>) -> (taken: bool)
        requires
            old(occupied).len() <= u32::MAX,
            old(self)@.items.len() > 0 ==> old(occupied).len() > 0,
        ensures
            taken == fits(
                candidates(
                    old(self)@.so_hash.with_seed(seed),
                    old(self)@.items,
                    old(occupied)@.len(),
                ),
                old(occupied)@,
            ),
            taken ==> final(self)@ == (BucketView {
                items: placed(
                    old(self)@.items,
                    candidates(
                        old(self)@.so_hash.with_seed(seed),
                        old(self)@.items,
                        old(occupied)@.len(),
                    ),
                ),
                so_hash: old(self)@.so_hash.with_seed(seed),
            }),
            taken ==> final(occupied)@ == marked(
                old(occupied)@,
                candidates(
                    old(self)@.so_hash.with_seed(seed),
                    old(self)@.items,
                    old(occupied)@.len(),
                ),
            ),
            !taken ==> final(self)@ == old(self)@ && final(occupied)@ == old(occupied)@,
    {
        let m: u32 = occupied.len() as u32;
        let mut so: SOHash = self.so_hash;
        so.set_seed(seed);
        let ghost before = self@;
        let ghost free = occupied@;
        let ghost all = candidates(so, before.items, m as nat);
        let mut cands: Vec<u32> = Vec::new();
        let mut i: usize = 0;
        while i < self.items.len()
            invariant
                i <= self.items.len(),
                self@ == before,
                before == old(self)@,
                occupied@ == free,
                free == old(occupied)@,
                so == before.so_hash.with_seed(seed),
                free.len() == m,
                before.items.len() > 0 ==> m > 0,
                all == candidates(so, before.items, m as nat),
                cands@ == all.take(i as int),
                fits(cands@, free),
            decreases self.items.len() - i,
        {
            let pos: u32 = so.hash(self.items[i].key()) % m;
            assert(pos == all[i as int]);
            if occupied[pos as usize] {
                assert(free[all[i as int] as int]);
                return false;
            }
            if holds(&cands, pos) {
                proof {
                    let j = choose|j: int| 0 <= j < cands@.len() && cands@[j] == pos;
                    assert(all[j] == all[i as int]);
                }
                return false;
            }
            cands.push(pos);
            proof {
                assert(cands@ =~= all.take(i + 1));
            }
            i += 1;
        }
        assert(cands@ =~= all);
        assert(occupied@ =~= marked(free, all.take(0)));
        self.so_hash = so;
        let mut j: usize = 0;
        while j < cands.len()
            invariant
                j <= cands.len(),
                cands@ == all,
                all.len() == before.items.len(),
                self@.so_hash == so,
                self@.items.len() == before.items.len(),
                occupied@.len() == free.len(),
                free.len() == m,
                forall|k: int| 0 <= k < all.len() ==> (#[trigger] all[k]) < m,
                forall|k: int| 0 <= k < j ==> self@.items[k] == before.items[k].placed_at(all[k]),
                forall|k: int| j <= k < all.len() ==> self@.items[k] == before.items[k],
                occupied@ == marked(free, all.take(j as int)),
            decreases cands.len() - j,
        {
            let pos: u32 = cands[j];
            let ghost items_before = self@.items;
            let ghost occupied_before = occupied@;
            self.items[j].place(pos);
            occupied[pos as usize] = true;
            proof {
                assert(self@.items =~= items_before.update(
                    j as int,
                    items_before[j as int].placed_at(pos),
                ));
                assert(occupied@ =~= occupied_before.update(pos as int, true));
                assert(all.take(j + 1) =~= all.take(j as int).push(pos));
                lemma_marked_push(free, all.take(j as int), pos);
            }
            j += 1;
        }
        proof {
            assert(all.take(j as int) =~= all);
            assert(self@.items =~= placed(before.items, all));
        }
        true
    }
}

} // verus!

//! The builder: from items to a minimal perfect hash table.

use vstd::prelude::*;
use crate::bucket::{candidates, fits, marked, Bucket, BucketView, InsertOutcome};
use crate::entropy::draw_seed;
use crate::first_order::FOHash;
use crate::hash::HashSeed;
use crate::item::{Item, ItemType, ItemView, Keyed};
use crate::layout::{flat, lemma_flat_len_same_shape, lemma_flat_len_update, lemma_part_fits};
use crate::order::greedy_order;
use crate::second_order::{SOHash, MXF64};
use crate::table::{
    at_home,
    contents,
    distinguishable,
    home,
    ingest,
    ingest_all,
    lemma_ingest_step,
    lemma_kept_were_offered,
    lemma_no_items,
    lemma_positions_fill,
    lemma_settle,
    lemma_survivors_bounded,
    no_items,
    placed_bucket,
    promoted,
    settled,
    slots,
    TableView,
};
use crate::tokens::{payloads_of, regex_accepts, regex_pieces, tokenize, values, SEPARATORS};

verus! {

/// Why no table was built.
#[derive(Debug, Clone, Copy, PartialEq, Eq, Structural)]
pub enum BuildError {
    /// No first-order hash has the name that was asked for.
    UnknownFirstOrderHash,
    /// No second-order hash has the name that was asked for.
    UnknownSecondOrderHash,
    /// The separator pattern was not accepted.
    BadSeparators,
    /// More items or buckets than a 32-bit position can number.
    TooLarge,
    /// There are items, and no bucket to put them in.
    NoBuckets,
    /// Some bucket found no seed within the attempts allowed.
    PlacementExhausted,
}

/// What a vector of buckets holds.
pub open spec fn views(buckets: Seq<Bucket>) -> Seq<BucketView> {
    buckets.map_values(|b: Bucket| b@)
}

/// What a vector of items holds.
pub open spec fn item_views(items: Seq<Item>) -> Seq<ItemView> {
    items.map_values(|it: Item| it@)
}

/// The payloads and keys of items.
pub open spec fn keyed(items: Seq<ItemView>) -> Seq<Keyed> {
    items.map_values(|v: ItemView| v.keyed())
}

/// The payloads `data`, each with the key that `fo` gives it.
pub open spec fn keyed_by(fo: FOHash, data: Seq<crate::item::ItemValue>) -> Seq<Keyed> {
    data.map_values(|d: crate::item::ItemValue| Keyed { data: d, key: fo.hash_of(d.bytes()) })
}

/// How many buckets a table of `t` items gets: a tenth of `t`, rounded down.
pub open spec fn buckets_for(t: nat) -> nat {
    t / 10
}

/// `n` empty buckets that will place their items with `so`.
fn empty_buckets(n: usize, so: SOHash) -> (buckets: Vec<Bucket>)
    ensures
        buckets.len() == n,
        forall|b: int|
            0 <= b < n ==> (#[trigger] buckets[b])@ == (BucketView { items: Seq::empty(), so_hash: so }),
        contents(views(buckets@)) == no_items(n as nat),
{
    let mut buckets: Vec<Bucket> = Vec::new();
    let mut b: usize = 0;
    while b < n
        invariant
            b <= n,
            buckets.len() == b,
            forall|c: int|
                0 <= c < b ==> (#[trigger] buckets[c])@ == (BucketView {
                    items: Seq::empty(),
                    so_hash: so,
                }),
        decreases n - b,
    {
        buckets.push(Bucket::new(so));
        b += 1;
    }
    proof {
        let held = contents(views(buckets@));
        assert forall|c: int| 0 <= c < n implies held[c] == no_items(n as nat)[c] by {
            assert(buckets[c]@.items =~= Seq::empty());
            assert(held[c] =~= Seq::empty());
        }
        assert(held =~= no_items(n as nat));
    }
    buckets
}

/// Offers each of `items` in turn to its home bucket, and counts those that
/// were kept.
fn ingest_items(buckets: &mut Vec<Bucket>, items: Vec<Item>) -> (kept: usize)
    requires
        0 < old(buckets).len() <= u32::MAX,
        at_home(contents(views(old(buckets)@))),
        distinguishable(contents(views(old(buckets)@))),
    ensures
        final(buckets).len() == old(buckets).len(),
        contents(views(final(buckets)@)) == ingest_all(
            contents(views(old(buckets)@)),
            keyed(item_views(items@)),
        ),
        at_home(contents(views(final(buckets)@))),
        distinguishable(contents(views(final(buckets)@))),
        flat(contents(views(final(buckets)@))).len() == flat(contents(views(old(buckets)@))).len()
            + kept,
        kept <= items.len(),
        forall|b: int|
            0 <= b < old(buckets).len() ==> (#[trigger] final(buckets)[b])@.so_hash == old(
                buckets,
            )[b]@.so_hash,
{
    let n: u32 = buckets.len() as u32;
    let ghost start = contents(views(buckets@));
    let ghost offered = keyed(item_views(items@));
    let ghost first = buckets@;
    let count: usize = items.len();
    let mut kept: usize = 0;
    proof {
        assert(offered.take(0) =~= Seq::empty());
    }
    for item in it: items.into_iter()
        invariant
            keyed(item_views(it.seq())) == offered,
            it.seq().len() == count,
            buckets.len() == n,
            first.len() == n,
            0 < n,
            contents(views(buckets@)) == ingest_all(start, offered.take(it.index() as int)),
            at_home(contents(views(buckets@))),
            distinguishable(contents(views(buckets@))),
            flat(contents(views(buckets@))).len() == flat(start).len() + kept,
            kept <= it.index(),
            forall|b: int| 0 <= b < n ==> (#[trigger] buckets[b])@.so_hash == first[b]@.so_hash,
    {
        let ghost before = buckets@;
        let ghost held = contents(views(before));
        let ghost new = item@.keyed();
        proof {
            assert(offered[it.index() as int] == new);
            assert(offered.take(it.index() + 1).drop_last() =~= offered.take(it.index() as int));
            lemma_ingest_step(held, new);
        }
        let b: usize = (item.key() % n) as usize;
        assert(b == home(new.key, held.len()));
        assert(held[b as int] == before[b as int]@.keyed());
        let outcome = buckets[b].try_insert(item);
        proof {
            let after = contents(views(buckets@));
            if outcome is Inserted {
                assert(buckets[b as int]@.keyed() =~= held[b as int].push(new));
                assert(after =~= held.update(b as int, held[b as int].push(new)));
            } else {
                assert(after =~= held);
            }
            assert(after == ingest(held, new));
        }
        if outcome == InsertOutcome::Inserted {
            kept += 1;
        }
    }
    proof {
        assert(offered.take(offered.len() as int) =~= offered);
    }
    kept
}

/// An item for each payload, keyed by `fo`.
fn keyed_items(payloads: Vec<ItemType>, fo: &FOHash) -> (items: Vec<Item>)
    ensures
        items.len() == payloads.len(),
        keyed(item_views(items@)) == keyed_by(*fo, values(payloads@)),
{
    let ghost all = values(payloads@);
    let mut items: Vec<Item> = Vec::new();
    for payload in it: payloads.into_iter()
        invariant
            values(it.seq()) == all,
            items.len() == it.index(),
            keyed(item_views(items@)) =~= keyed_by(*fo, all.take(it.index() as int)),
    {
        let ghost before = items@;
        let ghost value = payload@;
        items.push(Item::new(payload, fo));
        proof {
            assert(all[it.index() as int] == value);
            assert(keyed(item_views(items@)) =~= keyed(item_views(before)).push(
                Keyed { data: value, key: fo.hash_of(value.bytes()) },
            ));
            assert(keyed_by(*fo, all.take(it.index() + 1)) =~= keyed_by(
                *fo,
                all.take(it.index() as int),
            ).push(Keyed { data: value, key: fo.hash_of(value.bytes()) }));
        }
    }
    proof {
        assert(all.take(all.len() as int) =~= all);
    }
    items
}

/// How many items each bucket holds.
fn bucket_sizes(buckets: &Vec<Bucket>) -> (sizes: Vec<usize>)
    ensures
        sizes.len() == buckets.len(),
        forall|b: int| 0 <= b < buckets.len() ==> (#[trigger] sizes[b]) == buckets[b]@.items.len(),
{
    let mut sizes: Vec<usize> = Vec::new();
    let mut b: usize = 0;
    while b < buckets.len()
        invariant
            b <= buckets.len(),
            sizes.len() == b,
            forall|c: int| 0 <= c < b ==> (#[trigger] sizes[c]) == buckets[c]@.items.len(),
        decreases buckets.len() - b,
    {
        sizes.push(buckets[b].len());
        b += 1;
    }
    sizes
}

/// Whether `after` and `marks` are `before` and `occupied` once the bucket
/// was placed under `seed`, and `seed` has the width of the bucket's hash
/// and fitted.
pub open spec fn placement(
    before: BucketView,
    occupied: Seq<bool>,
    seed: HashSeed,
    after: BucketView,
    marks: Seq<bool>,
) -> bool {
    let cands = candidates(before.so_hash.with_seed(seed), before.items, occupied.len());
    &&& before.so_hash.with_seed(seed).well_seeded()
    &&& fits(cands, occupied)
    &&& after == placed_bucket(before, seed, occupied.len())
    &&& marks == marked(occupied, cands)
}

/// Searches a seed for bucket `b`: fresh seeds of the width of the bucket's
/// hash are drawn and tried until one fits or `max_attempts` were tried.
/// No other bucket is touched, and no slot that was occupied is given up.
/// An empty bucket takes the first seed drawn.
pub fn place_bucket(
    buckets: &mut Vec<Bucket>,
    b: usize,
    occupied: &mut Vec<bool>,
    max_attempts: u64,
) -> (taken: bool)
    requires
        b < old(buckets).len(),
        old(occupied).len() <= u32::MAX,
        old(buckets)[b as int]@.items.len() > 0 ==> old(occupied).len() > 0,
    ensures
        final(buckets).len() == old(buckets).len(),
        final(occupied).len() == old(occupied).len(),
        forall|c: int|
            0 <= c < old(buckets).len() && c != b ==> (#[trigger] final(buckets)[c]) == old(
                buckets,
            )[c],
        forall|p: int|
            0 <= p < old(occupied).len() && old(occupied)[p] ==> #[trigger] final(occupied)[p],
        taken ==> exists|seed: HashSeed| #[trigger]
            placement(
                old(buckets)[b as int]@,
                old(occupied)@,
                seed,
                final(buckets)[b as int]@,
                final(occupied)@,
            ),
        !taken ==> final(buckets)[b as int]@ == old(buckets)[b as int]@ && final(occupied)@ == old(
            occupied,
        )@,
        max_attempts == 0 ==> !taken,
        max_attempts > 0 && old(buckets)[b as int]@.items.len() == 0 ==> taken,
{
    let wide: bool = buckets[b].so_hash().is_64bits();
    let mut attempts: u64 = 0;
    let mut taken: bool = false;
    while !taken && attempts < max_attempts
        invariant
            b < buckets.len(),
            buckets.len() == old(buckets).len(),
            occupied.len() == old(occupied).len(),
            old(occupied).len() <= u32::MAX,
            old(buckets)[b as int]@.items.len() > 0 ==> old(occupied).len() > 0,
            forall|c: int|
                0 <= c < old(buckets).len() && c != b ==> (#[trigger] buckets[c]) == old(buckets)[c],
            !taken ==> buckets[b as int]@ == old(buckets)[b as int]@ && occupied@ == old(occupied)@,
            taken ==> exists|seed: HashSeed| #[trigger]
                placement(
                    old(buckets)[b as int]@,
                    old(occupied)@,
                    seed,
                    buckets[b as int]@,
                    occupied@,
                ),
            attempts == 0 ==> !taken,
            attempts <= max_attempts,
            attempts > 0 && old(buckets)[b as int]@.items.len() == 0 ==> taken,
            wide == old(buckets)[b as int]@.so_hash.wide(),
        decreases max_attempts - attempts,
    {
        let seed = draw_seed(wide);
        taken = buckets[b].try_place(seed, occupied);
        proof {
            if taken {
                assert(placement(
                    old(buckets)[b as int]@,
                    old(occupied)@,
                    seed,
                    buckets[b as int]@,
                    occupied@,
                ));
            }
        }
        attempts += 1;
    }
    proof {
        if taken {
            let seed = choose|seed: HashSeed| #[trigger]
                placement(
                    old(buckets)[b as int]@,
                    old(occupied)@,
                    seed,
                    buckets[b as int]@,
                    occupied@,
                );
            let cands = candidates(
                old(buckets)[b as int]@.so_hash.with_seed(seed),
                old(buckets)[b as int]@.items,
                old(occupied)@.len(),
            );
            assert forall|p: int| 0 <= p < old(occupied).len() && old(occupied)[p] implies #[trigger] occupied[p] by {
                assert(occupied@[p] == marked(old(occupied)@, cands)[p]);
            }
        }
    }
    taken
}

/// Whether two hashes are the same variant, whatever their seeds.
pub open spec fn same_variant(a: SOHash, b: SOHash) -> bool {
    a.with_seed(b.seed_of()) == b
}

/// Whether every item of every bucket has its final position: by the
/// formula, below `m`, and no two items of the table in the same.
pub open spec fn all_placed(buckets: Seq<BucketView>, m: nat) -> bool {
    exists|occupied: Seq<bool>| #[trigger] settled(buckets, occupied, numbers_below(buckets.len()), m)
}

/// The numbers below `n`.
pub open spec fn numbers_below(n: nat) -> Set<int> {
    Set::new(|b: int| 0 <= b < n)
}

/// `m` slots, none occupied.
fn free_slots(m: usize) -> (occupied: Vec<bool>)
    ensures
        occupied.len() == m,
        forall|p: int| 0 <= p < m ==> !(#[trigger] occupied[p]),
{
    let mut occupied: Vec<bool> = Vec::new();
    let mut p: usize = 0;
    while p < m
        invariant
            p <= m,
            occupied.len() == p,
            forall|q: int| 0 <= q < p ==> !(#[trigger] occupied[q]),
        decreases m - p,
    {
        occupied.push(false);
        p += 1;
    }
    occupied
}

/// Places the buckets in the order given, each by a seed search against the
/// slots that the buckets before it have taken. Empty buckets keep the seed
/// they have. Gives up at the first bucket that finds no seed.
fn place_all(buckets: &mut Vec<Bucket>, order: &Vec<usize>, m: usize, max_attempts: u64) -> (ok:
    bool)
    requires
        forall|k: int| 0 <= k < order.len() ==> (#[trigger] order[k]) < old(buckets).len(),
        forall|b: usize| b < old(buckets).len() ==> #[trigger] order@.contains(b),
        m == flat(slots(views(old(buckets)@))).len(),
        m <= u32::MAX,
    ensures
        final(buckets).len() == old(buckets).len(),
        contents(views(final(buckets)@)) == contents(views(old(buckets)@)),
        flat(slots(views(final(buckets)@))).len() == m,
        forall|b: int|
            0 <= b < old(buckets).len() ==> same_variant(
                (#[trigger] final(buckets)[b])@.so_hash,
                old(buckets)[b]@.so_hash,
            ),
        forall|b: int|
            0 <= b < old(buckets).len() && old(buckets)[b]@.items.len() == 0 ==> (
            #[trigger] final(buckets)[b])@ == old(buckets)[b]@,
        ok ==> all_placed(views(final(buckets)@), m as nat),
        !ok ==> m > 0,
        ok && max_attempts == 0 ==> forall|b: int|
            0 <= b < old(buckets).len() ==> (#[trigger] final(buckets)[b])@.items.len() == 0,
{
    let n: usize = buckets.len();
    let mut occupied: Vec<bool> = free_slots(m);
    let ghost first = buckets@;
    let ghost held = contents(views(buckets@));
    let ghost mut done: Set<int> = Set::empty();
    let mut k: usize = 0;
    while k < order.len()
        invariant
            k <= order.len(),
            buckets.len() == n,
            n == old(buckets).len(),
            first == old(buckets)@,
            held == contents(views(old(buckets)@)),
            occupied.len() == m,
            m <= u32::MAX,
            forall|j: int| 0 <= j < order.len() ==> (#[trigger] order[j]) < n,
            contents(views(buckets@)) == held,
            flat(slots(views(buckets@))).len() == m,
            settled(views(buckets@), occupied@, done, m as nat),
            forall|j: int| 0 <= j < k ==> done.contains((#[trigger] order[j]) as int),
            forall|b: int|
                0 <= b < n ==> same_variant((#[trigger] buckets[b])@.so_hash, first[b]@.so_hash),
            forall|b: int|
                0 <= b < n && first[b]@.items.len() == 0 ==> (#[trigger] buckets[b])@ == first[b]@,
            max_attempts == 0 ==> forall|j: int|
                0 <= j < k ==> buckets[(#[trigger] order[j]) as int]@.items.len() == 0,
        decreases order.len() - k,
    {
        let b: usize = order[k];
        if buckets[b].len() > 0 {
            let ghost before = views(buckets@);
            let ghost marks = occupied@;
            proof {
                lemma_part_fits(slots(before), b as int);
            }
            let taken = place_bucket(buckets, b, &mut occupied, max_attempts);
            if !taken {
                proof {
                    assert(views(buckets@) =~= before);
                }
                return false;
            }
            proof {
                let seed = choose|seed: HashSeed| #[trigger]
                    placement(before[b as int], marks, seed, buckets[b as int]@, occupied@);
                let after = placed_bucket(before[b as int], seed, marks.len());
                lemma_settle(before, marks, done, b as int, seed);
                assert(views(buckets@) =~= before.update(b as int, after));
                assert(after.keyed() =~= before[b as int].keyed());
                assert(contents(views(buckets@)) =~= held);
                lemma_flat_len_update(slots(before), b as int, after.items);
                assert(slots(views(buckets@)) =~= slots(before).update(b as int, after.items));
            }
        }
        proof {
            done = done.insert(b as int);
        }
        k += 1;
    }
    proof {
        let seen = views(buckets@);
        let everyone = numbers_below(seen.len());
        assert forall|b: int| everyone.contains(b) implies done.contains(b) by {
            assert(order@.contains(b as usize));
            let j = choose|j: int| 0 <= j < order.len() && order[j] == b as usize;
            assert(done.contains(order[j] as int));
        }
        assert(settled(seen, occupied@, everyone, m as nat));
        if max_attempts == 0 {
            assert forall|b: int| 0 <= b < n implies (#[trigger] buckets[b])@.items.len() == 0 by {
                assert(order@.contains(b as usize));
                let j = choose|j: int| 0 <= j < order.len() && order[j] == b as usize;
                assert(buckets[order[j] as int]@.items.len() == 0);
            }
        }
    }
    true
}

/// Which of the two names is unknown, if one is. The first-order name is
/// looked at first.
pub open spec fn misnamed(first_order_hash: Seq<char>, second_order_hash: Seq<char>) -> Option<
    BuildError,
> {
    if FOHash::named(first_order_hash) is None {
        Some(BuildError::UnknownFirstOrderHash)
    } else if SOHash::named(second_order_hash) is None {
        Some(BuildError::UnknownSecondOrderHash)
    } else {
        None
    }
}

/// Why `count` items cannot go into `n` buckets, if they cannot.
pub open spec fn refusal(count: nat, n: nat) -> Option<BuildError> {
    if count > u32::MAX || n > u32::MAX {
        Some(BuildError::TooLarge)
    } else if n == 0 && count > 0 {
        Some(BuildError::NoBuckets)
    } else {
        None
    }
}

/// Whether `t` is the table of the items `offered` in `n` buckets under the
/// hashes `fo` and `so`: its buckets hold what is left of the items after
/// each was offered in turn, and it is perfect.
pub open spec fn is_table_of(t: TableView, fo: FOHash, so: SOHash, offered: Seq<Keyed>, n: nat) -> bool {
    &&& t.fo_hash == fo
    &&& t.so_hash == so
    &&& t.buckets.len() == n
    &&& contents(t.buckets) == ingest_all(no_items(n), offered)
    &&& t.perfect()
}

/// Whether `r` answers the request for the table of `offered` in `n`
/// buckets. A request that is refused gets its refusal. Any other gets the
/// table, or the report that the seed search was given up, which is not
/// made where nothing was offered, and always made where items were offered
/// and no attempt allowed.
pub open spec fn answers(
    r: Result<PHash, BuildError>,
    fo: FOHash,
    so: SOHash,
    offered: Seq<Keyed>,
    n: nat,
    max_attempts: u64,
) -> bool {
    match refusal(offered.len(), n) {
        Some(e) => r == Err::<PHash, BuildError>(e),
        None => match r {
            Ok(table) => is_table_of(table@, fo, so, offered, n) && (offered.len() == 0
                || max_attempts > 0),
            Err(e) => e == BuildError::PlacementExhausted && offered.len() > 0,
        },
    }
}

/// The size of a table is the number of items that were kept, which is no
/// more than were offered: every item that is dropped makes the table one
/// smaller, and nothing else does.
pub proof fn lemma_table_size(t: TableView, fo: FOHash, so: SOHash, offered: Seq<Keyed>, n: nat)
    requires
        is_table_of(t, fo, so, offered, n),
        refusal(offered.len(), n) is None,
    ensures
        t.m == flat(ingest_all(no_items(n), offered)).len(),
        t.m <= offered.len(),
{
    assert forall|b: int| 0 <= b < t.buckets.len() implies (#[trigger] slots(t.buckets)[b]).len()
        == contents(t.buckets)[b].len() by {
        assert(t.buckets[b].keyed().len() == t.buckets[b].items.len());
    }
    lemma_flat_len_same_shape(slots(t.buckets), contents(t.buckets));
    if n > 0 {
        lemma_survivors_bounded(n, offered);
    } else {
        assert(offered =~= Seq::empty());
        lemma_no_items(n);
    }
}

/// A table of payloads holds each payload once: of equal payloads that were
/// offered, one is in the table, and whatever bucket and place two items
/// have, their payloads differ.
pub proof fn lemma_one_of_each_payload(
    t: TableView,
    fo: FOHash,
    so: SOHash,
    data: Seq<crate::item::ItemValue>,
    n: nat,
)
    requires
        is_table_of(t, fo, so, keyed_by(fo, data), n),
        0 < n <= u32::MAX,
    ensures
        forall|b: int, i: int, c: int, j: int|
            t.has(b, i) && t.has(c, j) && (#[trigger] t.buckets[b].items[i]).data == (
            #[trigger] t.buckets[c].items[j]).data ==> b == c && i == j,
{
    let offered = keyed_by(fo, data);
    let held = contents(t.buckets);
    lemma_kept_were_offered(n, offered);
    assert forall|b: int, i: int, c: int, j: int|
        t.has(b, i) && t.has(c, j) && (#[trigger] t.buckets[b].items[i]).data == (
        #[trigger] t.buckets[c].items[j]).data implies b == c && i == j by {
        let x = held[b][i];
        let y = held[c][j];
        assert(x == t.buckets[b].items[i].keyed());
        assert(y == t.buckets[c].items[j].keyed());
        assert(offered.contains(x));
        assert(offered.contains(y));
        let kx = choose|k: int| 0 <= k < offered.len() && offered[k] == x;
        let ky = choose|k: int| 0 <= k < offered.len() && offered[k] == y;
        assert(x.key == fo.hash_of(x.data.bytes()));
        assert(y.key == fo.hash_of(y.data.bytes()));
        assert(home(x.key, n) == b);
        assert(home(y.key, n) == c);
        if i < j {
            assert(held[b][i].data != held[b][j].data);
        } else if j < i {
            assert(held[b][j].data != held[b][i].data);
        }
    }
}

/// The table of no items is empty: its size is zero and every bucket holds
/// nothing.
pub proof fn lemma_nothing_offered(t: TableView, fo: FOHash, so: SOHash, n: nat)
    requires
        is_table_of(t, fo, so, Seq::empty(), n),
    ensures
        t.m == 0,
        forall|b: int| 0 <= b < t.buckets.len() ==> (#[trigger] t.buckets[b]).items.len() == 0,
{
    lemma_no_items(n);
    assert forall|b: int| 0 <= b < t.buckets.len() implies (#[trigger] t.buckets[b]).items.len()
        == 0 by {
        assert(contents(t.buckets)[b] == no_items(n)[b]);
        assert(t.buckets[b].keyed().len() == 0);
    }
    assert forall|b: int| 0 <= b < t.buckets.len() implies (#[trigger] slots(t.buckets)[b]).len()
        == no_items(n)[b].len() by {
        assert(t.buckets[b].items.len() == 0);
    }
    lemma_flat_len_same_shape(slots(t.buckets), no_items(n));
}

/// A minimal perfect hash table, or one that is configured and still empty.
#[derive(Debug)]
pub struct PHash {
    buckets: Vec<Bucket>,
    fo_hash: FOHash,
    so_hash: SOHash,
    m: usize,
}

impl View for PHash {
    type V = TableView;

    closed spec fn view(&self) -> TableView {
        TableView {
            buckets: views(self.buckets@),
            fo_hash: self.fo_hash,
            so_hash: self.so_hash,
            m: self.m as nat,
        }
    }
}

/// A table without buckets is perfect.
proof fn lemma_empty_table(t: TableView)
    requires
        t.buckets.len() == 0,
        t.m == 0,
        t.fo_hash.wide() ==> t.so_hash.wide(),
    ensures
        t.perfect(),
{
    assert(slots(t.buckets) =~= Seq::empty());
}

/// A table whose buckets were filled and placed is perfect.
proof fn lemma_built_table(t: TableView)
    requires
        t.m == flat(slots(t.buckets)).len(),
        t.m <= u32::MAX,
        t.buckets.len() <= u32::MAX,
        all_placed(t.buckets, t.m),
        t.one_family(),
        forall|b: int|
            0 <= b < t.buckets.len() && (#[trigger] t.buckets[b]).items.len() == 0
                ==> t.buckets[b].so_hash == t.so_hash,
        at_home(contents(t.buckets)),
        distinguishable(contents(t.buckets)),
        t.fo_hash.wide() ==> t.so_hash.wide(),
    ensures
        t.perfect(),
{
    let everyone = numbers_below(t.buckets.len());
    let occupied = choose|occupied: Seq<bool>| #[trigger]
        settled(t.buckets, occupied, everyone, t.m);
    assert forall|b: int, i: int| t.has(b, i) implies 0 <= #[trigger] t.pos(b, i) < t.m by {
        assert(everyone.contains(b));
        assert(t.buckets[b].items[i].final_pos < t.m);
    }
    assert forall|b: int, i: int| t.has(b, i) implies #[trigger] t.pos(b, i) == slot_of(t, b, i) by {
        assert(everyone.contains(b));
        assert(t.buckets[b].items[i].final_pos == slot_of(t, b, i));
    }
    assert forall|b1: int, i1: int, b2: int, i2: int|
        t.has(b1, i1) && t.has(b2, i2) && #[trigger] t.pos(b1, i1) == #[trigger] t.pos(
            b2,
            i2,
        ) implies b1 == b2 && i1 == i2 by {
        assert(everyone.contains(b1));
        assert(everyone.contains(b2));
        assert(t.buckets[b1].items[i1].final_pos == t.buckets[b2].items[i2].final_pos);
    }
    assert forall|b: int| 0 <= b < t.buckets.len() implies if (#[trigger] t.buckets[b]).items.len()
        == 0 {
        t.buckets[b].so_hash == t.so_hash
    } else {
        t.buckets[b].so_hash.well_seeded()
    } by {
        assert(everyone.contains(b));
    }
    lemma_positions_fill(t);
}

/// The slot that the lookup computes for the item at place `i` of bucket `b`.
pub open spec fn slot_of(t: TableView, b: int, i: int) -> u32 {
    crate::bucket::slot(t.buckets[b].so_hash, t.buckets[b].items[i].key, t.m)
}

impl Default for PHash {
    fn default() -> (table: Self)
        ensures
            table@.buckets.len() == 0,
            table@.m == 0,
            table@.fo_hash == FOHash::Murmur3(crate::first_order::Murmur3 {}),
            table@.so_hash == SOHash::MXF(crate::second_order::MXF { seed: HashSeed::Bits64(0) }),
            table@.perfect(),
    {
        let buckets: Vec<Bucket> = Vec::new();
        let fo_hash = FOHash::Murmur3(crate::first_order::Murmur3 {});
        let so_hash = SOHash::MXF(crate::second_order::MXF { seed: HashSeed::Bits64(0) });
        proof {
            lemma_empty_table(
                TableView { buckets: views(buckets@), fo_hash, so_hash, m: 0 },
            );
        }
        PHash { buckets, fo_hash, so_hash, m: 0 }
    }
}

impl PHash {
    #[verifier::type_invariant]
    spec fn is_perfect(self) -> bool {
        self@.perfect()
    }

    /// A configured table without buckets: the first- and second-order
    /// hashes of the names given, the second-order hash promoted where the
    /// first-order keys are wide and it is not. An unknown first-order name
    /// is reported before the second-order name is looked at.
    pub fn new(first_order_hash: &str, second_order_hash: &str) -> (r: Result<PHash, BuildError>)
        ensures
            match misnamed(first_order_hash@, second_order_hash@) {
                Some(e) => r == Err::<PHash, BuildError>(e),
                None => r matches Ok(table) && {
                    &&& table@.fo_hash == FOHash::named(first_order_hash@)->0
                    &&& table@.so_hash == promoted(
                        table@.fo_hash,
                        SOHash::named(second_order_hash@)->0,
                    )
                    &&& table@.buckets.len() == 0
                    &&& table@.m == 0
                    &&& table@.perfect()
                },
            },
    {
        let fo_hash = match FOHash::from_name(first_order_hash) {
            Ok(h) => h,
            Err(_) => {
                return Err(BuildError::UnknownFirstOrderHash);
            },
        };
        let asked = match SOHash::from_name(second_order_hash) {
            Ok(h) => h,
            Err(_) => {
                return Err(BuildError::UnknownSecondOrderHash);
            },
        };
        let so_hash = if fo_hash.is_64bits() && !asked.is_64bits() {
            SOHash::MXF64(MXF64 { seed: HashSeed::Bits64(0) })
        } else {
            asked
        };
        let buckets: Vec<Bucket> = Vec::new();
        proof {
            lemma_empty_table(
                TableView { buckets: views(buckets@), fo_hash, so_hash, m: 0 },
            );
        }
        Ok(PHash { buckets, fo_hash, so_hash, m: 0 })
    }

    /// How many buckets a table of `t` items gets.
    pub fn bucket_count(t: usize) -> (n: usize)
        ensures
            n == buckets_for(t as nat),
    {
        t / 10
    }

    /// Builds the table of `items`, which carry their keys, in
    /// `bucket_count` buckets, with the hashes of this table.
    ///
    /// Each item is offered to the bucket of its key; one whose payload or
    /// key the bucket already holds is dropped. The buckets are then placed,
    /// fullest first, each by a search of at most `max_attempts` fresh
    /// seeds. What this table held before is discarded.
    pub fn fill_keyed(self, items: Vec<Item>, bucket_count: usize, max_attempts: u64) -> (r: Result<
        PHash,
        BuildError,
    >)
        ensures
            answers(
                r,
                self@.fo_hash,
                self@.so_hash,
                keyed(item_views(items@)),
                bucket_count as nat,
                max_attempts,
            ),
    {
        proof {
            use_type_invariant(&self);
        }
        if items.len() > u32::MAX as usize || bucket_count > u32::MAX as usize {
            return Err(BuildError::TooLarge);
        }
        let fo_hash = self.fo_hash;
        let so_hash = self.so_hash;
        let ghost offered = keyed(item_views(items@));
        let mut buckets: Vec<Bucket> = empty_buckets(bucket_count, so_hash);
        proof {
            lemma_no_items(bucket_count as nat);
        }
        if bucket_count == 0 {
            if items.len() > 0 {
                return Err(BuildError::NoBuckets);
            }
            proof {
                assert(offered =~= Seq::empty());
                lemma_empty_table(
                    TableView { buckets: views(buckets@), fo_hash, so_hash, m: 0 },
                );
            }
            return Ok(PHash { buckets, fo_hash, so_hash, m: 0 });
        }
        let ghost empty = buckets@;
        let m: usize = ingest_items(&mut buckets, items);
        let ghost filled = buckets@;
        proof {
            lemma_flat_len_same_shape(slots(views(filled)), contents(views(filled)));
            lemma_survivors_bounded(bucket_count as nat, offered);
        }
        let sizes = bucket_sizes(&buckets);
        let order = greedy_order(&sizes);
        let ok = place_all(&mut buckets, &order, m, max_attempts);
        if !ok {
            return Err(BuildError::PlacementExhausted);
        }
        proof {
            let t = TableView { buckets: views(buckets@), fo_hash, so_hash, m: m as nat };
            assert forall|b: int| 0 <= b < t.buckets.len() implies (
            #[trigger] t.buckets[b]).so_hash.with_seed(so_hash.seed_of()) == so_hash by {
                assert(same_variant(buckets[b]@.so_hash, filled[b]@.so_hash));
                assert(filled[b]@.so_hash == empty[b]@.so_hash);
                assert(empty[b]@.so_hash == so_hash);
            }
            assert forall|b: int|
                0 <= b < t.buckets.len() && (#[trigger] t.buckets[b]).items.len() == 0 implies t.buckets[b].so_hash
                == so_hash by {
                assert(contents(views(buckets@))[b].len() == contents(views(filled))[b].len());
                assert(filled[b]@.items.len() == 0);
                assert(buckets[b]@ == filled[b]@);
                assert(filled[b]@.so_hash == empty[b]@.so_hash);
                assert(empty[b]@.so_hash == so_hash);
            }
            lemma_built_table(t);
            if max_attempts == 0 {
                assert forall|b: int| 0 <= b < t.buckets.len() implies (#[trigger] slots(
                    t.buckets,
                )[b]).len() == no_items(bucket_count as nat)[b].len() by {
                    assert(buckets[b]@.items.len() == 0);
                }
                lemma_flat_len_same_shape(slots(t.buckets), no_items(bucket_count as nat));
            }
        }
        Ok(PHash { buckets, fo_hash, so_hash, m })
    }

    /// Builds the table of `payloads` in `bucket_count` buckets: each
    /// payload is keyed by the first-order hash of this table, and the
    /// items are then bucketed and placed as `fill_keyed` does.
    pub fn fill(self, payloads: Vec<ItemType>, bucket_count: usize, max_attempts: u64) -> (r:
        Result<PHash, BuildError>)
        ensures
            answers(
                r,
                self@.fo_hash,
                self@.so_hash,
                keyed_by(self@.fo_hash, values(payloads@)),
                bucket_count as nat,
                max_attempts,
            ),
    {
        let items = keyed_items(payloads, &self.fo_hash);
        self.fill_keyed(items, bucket_count, max_attempts)
    }

    /// Builds the table of `payloads` under the hashes of the names given,
    /// in one bucket for every ten payloads.
    pub fn from_items(
        payloads: Vec<ItemType>,
        first_order_hash: &str,
        second_order_hash: &str,
        max_attempts: u64,
    ) -> (r: Result<PHash, BuildError>)
        ensures
            match misnamed(first_order_hash@, second_order_hash@) {
                Some(e) => r == Err::<PHash, BuildError>(e),
                None => answers(
                    r,
                    FOHash::named(first_order_hash@)->0,
                    promoted(
                        FOHash::named(first_order_hash@)->0,
                        SOHash::named(second_order_hash@)->0,
                    ),
                    keyed_by(FOHash::named(first_order_hash@)->0, values(payloads@)),
                    buckets_for(payloads.len() as nat),
                    max_attempts,
                ),
            },
    {
        let table = match PHash::new(first_order_hash, second_order_hash) {
            Ok(table) => table,
            Err(e) => {
                return Err(e);
            },
        };
        let n: usize = PHash::bucket_count(payloads.len());
        table.fill(payloads, n, max_attempts)
    }

    /// Builds the table of the tokens of `content`: the pieces between its
    /// runs of newlines and commas that are not empty. The names are looked
    /// up before the text is cut.
    pub fn from_text(
        content: &str,
        first_order_hash: &str,
        second_order_hash: &str,
        max_attempts: u64,
    ) -> (r: Result<PHash, BuildError>)
        ensures
            match misnamed(first_order_hash@, second_order_hash@) {
                Some(e) => r == Err::<PHash, BuildError>(e),
                None => if !regex_accepts(SEPARATORS@) {
                    r == Err::<PHash, BuildError>(BuildError::BadSeparators)
                } else {
                    answers(
                        r,
                        FOHash::named(first_order_hash@)->0,
                        promoted(
                            FOHash::named(first_order_hash@)->0,
                            SOHash::named(second_order_hash@)->0,
                        ),
                        keyed_by(
                            FOHash::named(first_order_hash@)->0,
                            payloads_of(regex_pieces(SEPARATORS@, content@)),
                        ),
                        buckets_for(payloads_of(regex_pieces(SEPARATORS@, content@)).len()),
                        max_attempts,
                    )
                },
            },
    {
        let table = match PHash::new(first_order_hash, second_order_hash) {
            Ok(table) => table,
            Err(e) => {
                return Err(e);
            },
        };
        let payloads = match tokenize(content) {
            Ok(payloads) => payloads,
            Err(_) => {
                return Err(BuildError::BadSeparators);
            },
        };
        let n: usize = PHash::bucket_count(payloads.len());
        table.fill(payloads, n, max_attempts)
    }

    /// The size of the table: how many items it holds.
    pub fn m(&self) -> (m: usize)
        ensures
            m == self@.m,
            self@.perfect(),
    {
        proof {
            use_type_invariant(self);
        }
        self.m
    }

    /// The first-order hash the table was configured with.
    pub fn fo_hash(&self) -> (fo: &FOHash)
        ensures
            *fo == self@.fo_hash,
    {
        &self.fo_hash
    }

    /// The second-order hash the table was configured with. The seeds that
    /// were found are those of the buckets.
    pub fn so_hash(&self) -> (so: &SOHash)
        ensures
            *so == self@.so_hash,
    {
        &self.so_hash
    }

    /// The buckets, in the order of the first-order slots. Each carries
    /// the seed that was found for it; an empty one, the seed it began with.
    pub fn buckets(&self) -> (buckets: &Vec<Bucket>)
        ensures
            views(buckets@) == self@.buckets,
            self@.perfect(),
    {
        proof {
            use_type_invariant(self);
        }
        &self.buckets
    }

    /// The bucket of the first-order slot 0, if the table has buckets.
    pub fn first_bucket(&self) -> (first: Option<&Bucket>)
        ensures
            match first {
                Some(bucket) => self@.buckets.len() > 0 && bucket@ == self@.buckets[0],
                None => self@.buckets.len() == 0,
            },
    {
        if self.buckets.len() > 0 {
            Some(&self.buckets[0])
        } else {
            None
        }
    }

    /// The first item of the first bucket that is not empty.
    pub fn first_item(&self) -> (first: Option<&Item>)
        ensures
            match first {
                Some(item) => exists|b: int|
                    {
                        &&& 0 <= b < self@.buckets.len()
                        &&& (#[trigger] self@.buckets[b]).items.len() > 0
                        &&& item@ == self@.buckets[b].items[0]
                        &&& forall|c: int| 0 <= c < b ==> (#[trigger] self@.buckets[c]).items.len() == 0
                    },
                None => forall|b: int|
                    0 <= b < self@.buckets.len() ==> (#[trigger] self@.buckets[b]).items.len() == 0,
            },
    {
        let mut b: usize = 0;
        while b < self.buckets.len()
            invariant
                b <= self.buckets.len(),
                forall|c: int| 0 <= c < b ==> (#[trigger] self@.buckets[c]).items.len() == 0,
            decreases self.buckets.len() - b,
        {
            if self.buckets[b].len() > 0 {
                let item = self.buckets[b].item(0);
                assert(self@.buckets[b as int].items.len() > 0);
                return Some(item);
            }
            b += 1;
        }
        None
    }

    /// The items of the table, each at the index of its final position.
    pub fn items(&self) -> (items: Vec<&Item>)
        ensures
            self@.perfect(),
            items.len() == self@.m,
            forall|p: int|
                0 <= p < items.len() ==> (#[trigger] items[p])@.final_pos == p && self@.holds(
                    items[p]@,
                ),
    {
        proof {
            use_type_invariant(self);
        }
        let ghost t = self@;
        let m: usize = self.m;
        let mut found: Vec<Option<&Item>> = Vec::new();
        let mut p: usize = 0;
        while p < m
            invariant
                p <= m,
                found.len() == p,
                forall|q: int| 0 <= q < p ==> (#[trigger] found[q]) is None,
            decreases m - p,
        {
            found.push(None);
            p += 1;
        }
        let mut b: usize = 0;
        while b < self.buckets.len()
            invariant
                b <= self.buckets.len(),
                t == self@,
                t.perfect(),
                m == t.m,
                found.len() == m,
                forall|q: int|
                    0 <= q < m ==> ((#[trigger] found[q]) matches Some(item) ==> item@.final_pos == q
                        && t.holds(item@)),
                forall|c: int, j: int|
                    t.has(c, j) && c < b ==> found[#[trigger] t.pos(c, j)] is Some,
            decreases self.buckets.len() - b,
        {
            let bucket = &self.buckets[b];
            assert(bucket@ == t.buckets[b as int]);
            let mut i: usize = 0;
            while i < bucket.len()
                invariant
                    i <= bucket@.items.len(),
                    b < self.buckets.len(),
                    bucket@ == t.buckets[b as int],
                    t == self@,
                    t.perfect(),
                    m == t.m,
                    found.len() == m,
                    forall|q: int|
                        0 <= q < m ==> ((#[trigger] found[q]) matches Some(item) ==> item@.final_pos
                            == q && t.holds(item@)),
                    forall|c: int, j: int|
                        t.has(c, j) && (c < b || (c == b && j < i)) ==> found[#[trigger] t.pos(
                            c,
                            j,
                        )] is Some,
                decreases bucket@.items.len() - i,
            {
                let item = bucket.item(i);
                let at: usize = item.final_pos() as usize;
                assert(t.has(b as int, i as int));
                assert(at == t.pos(b as int, i as int));
                found[at] = Some(item);
                i += 1;
            }
            b += 1;
        }
        let mut items: Vec<&Item> = Vec::new();
        let mut p: usize = 0;
        while p < m
            invariant
                p <= m,
                t == self@,
                t.perfect(),
                m == t.m,
                found.len() == m,
                items.len() == p,
                forall|q: int|
                    0 <= q < m ==> ((#[trigger] found[q]) matches Some(item) ==> item@.final_pos == q
                        && t.holds(item@)),
                forall|c: int, j: int| t.has(c, j) ==> found[#[trigger] t.pos(c, j)] is Some,
                forall|q: int|
                    0 <= q < p ==> (#[trigger] items[q])@.final_pos == q && t.holds(items[q]@),
            decreases m - p,
        {
            proof {
                assert(t.taken(p as int));
                let (c, j) = choose|c: int, j: int| t.has(c, j) && #[trigger] t.pos(c, j) == p;
                assert(found[t.pos(c, j)] is Some);
            }
            match found[p] {
                Some(item) => {
                    items.push(item);
                },
                None => {},
            }
            p += 1;
        }
        items
    }
}

} // verus!

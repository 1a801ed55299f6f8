use pho::bucket::{Bucket, InsertOutcome};
use pho::hash::{HashKey, HashSeed};
use pho::item::{Item, ItemType};
use pho::order::greedy_order;
use pho::second_order::SOHash;

fn text(s: &str) -> ItemType {
    ItemType::Str(s.to_string())
}

fn slot(so: &SOHash, key: HashKey, m: u32) -> u32 {
    so.hash(key) % m
}

#[test]
fn new_bucket_is_empty_and_keeps_its_hash() {
    let so = SOHash::from_name("xorshift").unwrap();
    let bucket = Bucket::new(so);
    assert_eq!(bucket.len(), 0);
    assert_eq!(bucket.so_hash(), &so);
    let blank = Bucket::default();
    assert_eq!(blank.len(), 0);
    assert_eq!(blank.so_hash(), &SOHash::default());
}

#[test]
fn distinct_items_are_inserted_in_order() {
    let mut bucket = Bucket::new(SOHash::default());
    assert_eq!(bucket.try_insert(Item::with_key(text("a"), HashKey::Bits32(1))), InsertOutcome::Inserted);
    assert_eq!(bucket.try_insert(Item::with_key(text("b"), HashKey::Bits32(2))), InsertOutcome::Inserted);
    assert_eq!(bucket.try_insert(Item::with_key(text("c"), HashKey::Bits32(3))), InsertOutcome::Inserted);
    assert_eq!(bucket.len(), 3);
    assert_eq!(bucket.item(0).item_type(), &text("a"));
    assert_eq!(bucket.item(1).item_type(), &text("b"));
    assert_eq!(bucket.item(2).key(), HashKey::Bits32(3));
}

#[test]
fn equal_payload_is_dropped_as_duplicate() {
    let mut bucket = Bucket::new(SOHash::default());
    bucket.try_insert(Item::with_key(text("a"), HashKey::Bits32(1)));
    bucket.try_insert(Item::with_key(text("b"), HashKey::Bits32(2)));
    assert_eq!(bucket.try_insert(Item::with_key(text("a"), HashKey::Bits32(1))), InsertOutcome::Duplicate);
    assert_eq!(bucket.len(), 2);
    assert_eq!(bucket.item(0).item_type(), &text("a"));
    assert_eq!(bucket.item(1).item_type(), &text("b"));
}

#[test]
fn equal_key_with_other_payload_is_dropped_as_collision() {
    let mut bucket = Bucket::new(SOHash::default());
    assert_eq!(bucket.try_insert(Item::with_key(text("a"), HashKey::Bits32(7))), InsertOutcome::Inserted);
    assert_eq!(bucket.try_insert(Item::with_key(text("b"), HashKey::Bits32(7))), InsertOutcome::Collision);
    assert_eq!(bucket.len(), 1);
    assert_eq!(bucket.item(0).item_type(), &text("a"));
    assert_eq!(bucket.try_insert(Item::with_key(text("c"), HashKey::Bits32(7))), InsertOutcome::Collision);
    assert_eq!(bucket.len(), 1);
}

#[test]
fn equal_payload_is_looked_for_before_equal_key() {
    let mut bucket = Bucket::new(SOHash::default());
    bucket.try_insert(Item::with_key(text("a"), HashKey::Bits32(1)));
    bucket.try_insert(Item::with_key(text("b"), HashKey::Bits32(2)));
    assert_eq!(bucket.try_insert(Item::with_key(text("b"), HashKey::Bits32(1))), InsertOutcome::Duplicate);
    assert_eq!(bucket.try_insert(Item::with_key(text("a"), HashKey::Bits32(99))), InsertOutcome::Duplicate);
    assert_eq!(bucket.len(), 2);
}

#[test]
fn keys_of_different_width_are_different_keys() {
    let mut bucket = Bucket::new(SOHash::default());
    bucket.try_insert(Item::with_key(text("a"), HashKey::Bits32(7)));
    assert_eq!(bucket.try_insert(Item::with_key(text("b"), HashKey::Bits64(7))), InsertOutcome::Inserted);
    assert_eq!(bucket.len(), 2);
}

#[test]
fn fitting_seed_is_taken_and_marks_its_slots() {
    let mut bucket = Bucket::new(SOHash::from_name("xorshift").unwrap());
    bucket.try_insert(Item::with_key(text("a"), HashKey::Bits32(0)));
    bucket.try_insert(Item::with_key(text("b"), HashKey::Bits32(1)));
    // Under seed 0 the keys 0 and 1 hash to 0xd90fe8a8 and 0x223a6e3d.
    let mut occupied = vec![false; 7];
    let a = 0xd90fe8a8u32 % 7;
    let b = 0x223a6e3du32 % 7;
    assert_ne!(a, b);
    assert!(bucket.try_place(HashSeed::Bits32(0), &mut occupied));
    assert_eq!(bucket.item(0).final_pos(), a);
    assert_eq!(bucket.item(1).final_pos(), b);
    assert_eq!(bucket.so_hash().seed(), HashSeed::Bits32(0));
    for p in 0..7u32 {
        assert_eq!(occupied[p as usize], p == a || p == b);
    }
}

#[test]
fn seed_that_hits_an_occupied_slot_changes_nothing() {
    let mut bucket = Bucket::new(SOHash::from_name("xorshift").unwrap());
    bucket.try_insert(Item::with_key(text("a"), HashKey::Bits32(0)));
    bucket.try_insert(Item::with_key(text("b"), HashKey::Bits32(1)));
    let b = (0x223a6e3du32 % 7) as usize;
    let mut occupied = vec![false; 7];
    occupied[b] = true;
    let before = occupied.clone();
    assert!(!bucket.try_place(HashSeed::Bits32(0), &mut occupied));
    assert_eq!(occupied, before);
    assert_eq!(bucket.item(0).final_pos(), 0);
    assert_eq!(bucket.item(1).final_pos(), 0);
    assert_eq!(bucket.so_hash().seed(), HashSeed::Bits32(0));
    assert_eq!(bucket.len(), 2);
}

#[test]
fn seed_that_sends_two_items_to_one_slot_changes_nothing() {
    let mut bucket = Bucket::new(SOHash::from_name("mxf").unwrap());
    bucket.try_insert(Item::with_key(text("a"), HashKey::Bits32(10)));
    bucket.try_insert(Item::with_key(text("b"), HashKey::Bits32(11)));
    // One slot only: both items are sent to slot 0.
    let mut occupied = vec![false; 1];
    assert!(!bucket.try_place(HashSeed::Bits64(5), &mut occupied));
    assert_eq!(occupied, vec![false]);
    assert_eq!(bucket.so_hash().seed(), HashSeed::Bits64(0));
}

#[test]
fn taken_seed_follows_the_lookup_formula() {
    let mut bucket = Bucket::new(SOHash::from_name("mxf64").unwrap());
    let keys = [3u64, 1 << 40, 77, 0xdead_beef_0000_0001];
    for (i, k) in keys.iter().enumerate() {
        bucket.try_insert(Item::with_key(ItemType::U64(i as u64), HashKey::Bits64(*k)));
    }
    let mut seed = 0u64;
    let mut occupied = vec![false; 64];
    while !bucket.try_place(HashSeed::Bits64(seed), &mut occupied) {
        assert_eq!(occupied, vec![false; 64]);
        seed += 1;
    }
    assert_eq!(bucket.so_hash().seed(), HashSeed::Bits64(seed));
    let mut seen = Vec::new();
    for i in 0..bucket.len() {
        let item = bucket.item(i);
        assert_eq!(item.final_pos(), slot(bucket.so_hash(), item.key(), 64));
        assert!(occupied[item.final_pos() as usize]);
        assert!(!seen.contains(&item.final_pos()));
        seen.push(item.final_pos());
    }
    assert_eq!(occupied.iter().filter(|o| **o).count(), 4);
}

#[test]
fn empty_bucket_takes_any_seed() {
    let mut bucket = Bucket::new(SOHash::from_name("mxf").unwrap());
    let mut occupied = vec![true, false, true];
    assert!(bucket.try_place(HashSeed::Bits64(9), &mut occupied));
    assert_eq!(occupied, vec![true, false, true]);
    assert_eq!(bucket.so_hash().seed(), HashSeed::Bits64(9));
}

#[test]
fn greedy_order_puts_fuller_buckets_first() {
    assert_eq!(greedy_order(&vec![1, 3, 2]), vec![1, 2, 0]);
    assert_eq!(greedy_order(&vec![0, 0, 5, 0]), vec![2, 0, 1, 3]);
    assert_eq!(greedy_order(&vec![4]), vec![0]);
    assert_eq!(greedy_order(&Vec::new()), Vec::<usize>::new());
}

#[test]
fn greedy_order_keeps_equal_buckets_as_they_come() {
    assert_eq!(greedy_order(&vec![2, 2, 2]), vec![0, 1, 2]);
    assert_eq!(greedy_order(&vec![1, 2, 1, 2, 0, 2]), vec![1, 3, 5, 0, 2, 4]);
    assert_eq!(greedy_order(&vec![0, 0]), vec![0, 1]);
}

#[test]
fn greedy_order_agrees_with_a_stable_sort() {
    let sizes: Vec<usize> = (0..200usize).map(|i| (i * 7919 + 13) % 17).collect();
    let mut expected: Vec<usize> = (0..sizes.len()).collect();
    expected.sort_by_key(|b| std::cmp::Reverse(sizes[*b]));
    assert_eq!(greedy_order(&sizes), expected);
}

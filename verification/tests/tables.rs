use pho::bucket::{Bucket, InsertOutcome};
use pho::first_order::FOHash;
use pho::hash::{HashKey, HashSeed};
use pho::item::{Item, ItemType};
use pho::phash::{place_bucket, BuildError, PHash};
use pho::entropy::draw_seed;
use pho::second_order::{SOHash, MXF64};
use pho::tokens::{payloads, tokenize, tokenize_by, BadSeparators};

const NO_LIMIT: u64 = u64::MAX;

fn text(s: &str) -> ItemType {
    ItemType::Str(s.to_string())
}

fn texts(words: &[&str]) -> Vec<ItemType> {
    words.iter().map(|w| text(w)).collect()
}

fn numbered(count: usize) -> Vec<ItemType> {
    (0..count).map(|i| text(&format!("token{i}"))).collect()
}

/// Checks what a finished table promises: positions are the numbers below
/// `m`, each once, and the lookup finds every item.
fn check_table(table: &PHash) {
    let m = table.m();
    let n = table.buckets().len();
    let total: usize = table.buckets().iter().map(|b| b.len()).sum();
    assert_eq!(total, m);
    let items = table.items();
    assert_eq!(items.len(), m);
    for (p, item) in items.iter().enumerate() {
        assert_eq!(item.final_pos() as usize, p);
    }
    let mut seen = vec![false; m];
    for (b, bucket) in table.buckets().iter().enumerate() {
        assert_eq!(bucket.so_hash().name(), table.so_hash().name());
        for i in 0..bucket.len() {
            let item = bucket.item(i);
            assert_eq!(item.key(), table.fo_hash().hash(&item.item_type().hashable()));
            assert_eq!((item.key() % n as u32) as usize, b);
            let slot = bucket.so_hash().hash(item.key()) % m as u32;
            assert_eq!(slot, item.final_pos());
            assert!(!seen[slot as usize]);
            seen[slot as usize] = true;
            assert_eq!(items[slot as usize].item_type(), item.item_type());
        }
    }
    assert!(seen.iter().all(|s| *s));
}

#[test]
fn positions_are_a_bijection_for_every_pair_of_hashes() {
    for fo in ["fnv1a", "xxhash32", "murmur3", "xxhash64"] {
        for so in ["mxf", "mxf64", "xorshift"] {
            let table = PHash::new(fo, so).unwrap().fill(numbered(24), 8, NO_LIMIT).unwrap();
            assert_eq!(table.m(), 24);
            assert_eq!(table.buckets().len(), 8);
            assert_eq!(table.fo_hash().name(), fo);
            check_table(&table);
        }
    }
}

#[test]
fn table_of_number_payloads() {
    let payloads: Vec<ItemType> = vec![
        ItemType::U32(1),
        ItemType::U64(1),
        ItemType::I32(-1),
        ItemType::I64(-1),
        ItemType::U32(2),
        ItemType::I32(i32::MIN),
        ItemType::U64(u64::MAX - 1),
        ItemType::I64(i64::MIN),
    ];
    let table = PHash::new("murmur3", "xorshift").unwrap().fill(payloads, 3, NO_LIMIT).unwrap();
    assert_eq!(table.m(), 8);
    check_table(&table);
}

#[test]
fn payloads_with_the_same_bytes_collide() {
    // -1 as a signed and the largest unsigned 64-bit number have the same
    // bytes, so the same key: the second is dropped.
    let payloads = vec![ItemType::I64(-1), ItemType::U64(u64::MAX), ItemType::U32(u32::MAX)];
    let table = PHash::new("murmur3", "xorshift").unwrap().fill(payloads, 1, NO_LIMIT).unwrap();
    assert_eq!(table.m(), 2);
    assert_eq!(table.buckets()[0].item(0).item_type(), &ItemType::I64(-1));
    assert_eq!(table.buckets()[0].item(1).item_type(), &ItemType::U32(u32::MAX));
    check_table(&table);
}

#[test]
fn one_bucket_for_every_ten_payloads() {
    assert_eq!(PHash::bucket_count(0), 0);
    assert_eq!(PHash::bucket_count(9), 0);
    assert_eq!(PHash::bucket_count(10), 1);
    assert_eq!(PHash::bucket_count(19), 1);
    assert_eq!(PHash::bucket_count(20), 2);
    assert_eq!(PHash::bucket_count(1005), 100);
    let table = PHash::from_items(numbered(12), "murmur3", "xorshift", NO_LIMIT).unwrap();
    assert_eq!(table.buckets().len(), 1);
    assert_eq!(table.m(), 12);
    check_table(&table);
}

#[test]
fn duplicate_payload_shrinks_the_table_by_one() {
    let table = PHash::new("murmur3", "xorshift")
        .unwrap()
        .fill(texts(&["a", "b", "c", "a"]), 1, NO_LIMIT)
        .unwrap();
    assert_eq!(table.m(), 3);
    let items = table.items();
    assert_eq!(items.len(), 3);
    let count_a = items.iter().filter(|i| i.item_type() == &text("a")).count();
    assert_eq!(count_a, 1);
    assert_eq!(items.iter().filter(|i| i.item_type() == &text("b")).count(), 1);
    assert_eq!(items.iter().filter(|i| i.item_type() == &text("c")).count(), 1);
    check_table(&table);
}

#[test]
fn every_duplicate_is_dropped_once() {
    let words = ["x", "y", "x", "z", "y", "x", "w", "w"];
    let table = PHash::new("fnv1a", "mxf").unwrap().fill(texts(&words), 2, NO_LIMIT).unwrap();
    assert_eq!(table.m(), 4);
    check_table(&table);
}

#[test]
fn the_first_of_equal_payloads_is_the_one_kept() {
    let mut bucket = Bucket::new(SOHash::default());
    assert_eq!(bucket.try_insert(Item::with_key(text("a"), HashKey::Bits32(1))), InsertOutcome::Inserted);
    assert_eq!(bucket.try_insert(Item::with_key(text("a"), HashKey::Bits32(2))), InsertOutcome::Duplicate);
    assert_eq!(bucket.item(0).key(), HashKey::Bits32(1));
}

#[test]
fn colliding_key_drops_the_second_payload_only() {
    // A weak first-order hash: both payloads get the key 5.
    let items = vec![
        Item::with_key(text("first"), HashKey::Bits32(5)),
        Item::with_key(text("second"), HashKey::Bits32(5)),
    ];
    let table = PHash::new("murmur3", "xorshift").unwrap().fill_keyed(items, 1, NO_LIMIT).unwrap();
    assert_eq!(table.m(), 1);
    assert_eq!(table.items()[0].item_type(), &text("first"));
    assert_eq!(table.items()[0].final_pos(), 0);
}

#[test]
fn each_collision_costs_exactly_one_item() {
    let items = vec![
        Item::with_key(text("a"), HashKey::Bits32(4)),
        Item::with_key(text("b"), HashKey::Bits32(4)),
        Item::with_key(text("c"), HashKey::Bits32(6)),
        Item::with_key(text("d"), HashKey::Bits32(6)),
        Item::with_key(text("e"), HashKey::Bits32(8)),
        Item::with_key(text("f"), HashKey::Bits32(4)),
    ];
    let table = PHash::new("murmur3", "xorshift").unwrap().fill_keyed(items, 2, NO_LIMIT).unwrap();
    assert_eq!(table.m(), 3);
    assert_eq!(table.buckets()[0].len(), 3);
    assert_eq!(table.buckets()[1].len(), 0);
    let kept: Vec<&ItemType> = (0..3).map(|i| table.buckets()[0].item(i).item_type()).collect();
    assert_eq!(kept, vec![&text("a"), &text("c"), &text("e")]);
}

#[test]
fn equal_keys_in_different_width_go_by_their_low_bits() {
    // A 64-bit key is bucketed by its low 32 bits.
    let items = vec![
        Item::with_key(text("a"), HashKey::Bits64(0xffff_ffff_0000_0003)),
        Item::with_key(text("b"), HashKey::Bits64(0x0000_0001_0000_0004)),
    ];
    let table = PHash::new("xxhash64", "mxf64").unwrap().fill_keyed(items, 4, NO_LIMIT).unwrap();
    assert_eq!(table.buckets()[3].len(), 1);
    assert_eq!(table.buckets()[0].len(), 1);
    assert_eq!(table.buckets()[3].item(0).item_type(), &text("a"));
}

#[test]
fn wide_first_order_hash_promotes_the_second_order_hash() {
    for so in ["mxf", "xorshift", "mxf64"] {
        let table = PHash::new("xxhash64", so).unwrap();
        assert!(table.so_hash().is_64bits());
        assert_eq!(table.so_hash().name(), "mxf64");
        assert_eq!(table.so_hash(), &SOHash::MXF64(MXF64::default()));
    }
    let built = PHash::from_items(numbered(11), "xxhash64", "xorshift", NO_LIMIT).unwrap();
    assert!(built.so_hash().is_64bits());
    for bucket in built.buckets().iter() {
        assert!(bucket.so_hash().is_64bits());
        assert!(matches!(bucket.so_hash().seed(), HashSeed::Bits64(_)));
    }
    check_table(&built);
}

#[test]
fn narrow_first_order_hash_keeps_the_second_order_hash() {
    for fo in ["fnv1a", "xxhash32", "murmur3"] {
        assert_eq!(PHash::new(fo, "mxf").unwrap().so_hash().name(), "mxf");
        assert_eq!(PHash::new(fo, "xorshift").unwrap().so_hash().name(), "xorshift");
        assert_eq!(PHash::new(fo, "mxf64").unwrap().so_hash().name(), "mxf64");
    }
    let built = PHash::from_items(numbered(10), "fnv1a", "xorshift", NO_LIMIT).unwrap();
    for bucket in built.buckets().iter() {
        assert!(matches!(bucket.so_hash().seed(), HashSeed::Bits32(_)));
    }
}

#[test]
fn unknown_names_are_reported_before_anything_is_built() {
    assert!(matches!(PHash::new("nope", "mxf"), Err(BuildError::UnknownFirstOrderHash)));
    assert!(matches!(PHash::new("murmur3", "nope"), Err(BuildError::UnknownSecondOrderHash)));
    assert!(matches!(PHash::new("nope", "nope"), Err(BuildError::UnknownFirstOrderHash)));
    assert!(matches!(
        PHash::from_items(numbered(20), "nope", "mxf", NO_LIMIT),
        Err(BuildError::UnknownFirstOrderHash)
    ));
    assert!(matches!(
        PHash::from_text("a,b\n", "murmur3", "", NO_LIMIT),
        Err(BuildError::UnknownSecondOrderHash)
    ));
}

#[test]
fn empty_input_gives_an_empty_table() {
    let table = PHash::from_items(Vec::new(), "murmur3", "xorshift", NO_LIMIT).unwrap();
    assert_eq!(table.m(), 0);
    assert_eq!(table.buckets().len(), 0);
    assert!(table.items().is_empty());
    assert!(table.first_bucket().is_none());
    assert!(table.first_item().is_none());
    let table = PHash::from_text("", "murmur3", "xorshift", 0).unwrap();
    assert_eq!(table.m(), 0);
    assert!(table.items().is_empty());
    let table = PHash::from_text("\n\n,,\n", "fnv1a", "mxf", NO_LIMIT).unwrap();
    assert_eq!(table.m(), 0);
    assert!(table.items().is_empty());
}

#[test]
fn empty_input_with_buckets_keeps_default_seeds() {
    let table = PHash::new("murmur3", "xorshift").unwrap().fill(Vec::new(), 3, NO_LIMIT).unwrap();
    assert_eq!(table.m(), 0);
    assert_eq!(table.buckets().len(), 3);
    assert!(table.items().is_empty());
    for bucket in table.buckets().iter() {
        assert_eq!(bucket.so_hash().seed(), HashSeed::Bits32(0));
    }
    assert!(table.first_bucket().is_some());
    assert!(table.first_item().is_none());
    let blank = PHash::default();
    assert_eq!(blank.m(), 0);
    assert_eq!(blank.fo_hash().name(), "murmur3");
    assert_eq!(blank.so_hash().name(), "mxf");
    assert!(blank.items().is_empty());
}

#[test]
fn empty_buckets_of_a_built_table_keep_the_default_seed() {
    let table = PHash::new("murmur3", "mxf").unwrap().fill(texts(&["only"]), 5, NO_LIMIT).unwrap();
    assert_eq!(table.m(), 1);
    let mut empty = 0;
    for bucket in table.buckets().iter() {
        if bucket.len() == 0 {
            assert_eq!(bucket.so_hash().seed(), HashSeed::Bits64(0));
            empty += 1;
        }
    }
    assert_eq!(empty, 4);
    check_table(&table);
}

#[test]
fn items_without_a_bucket_are_refused() {
    let r = PHash::new("murmur3", "xorshift").unwrap().fill(texts(&["a"]), 0, NO_LIMIT);
    assert!(matches!(r, Err(BuildError::NoBuckets)));
    let r = PHash::from_items(numbered(9), "murmur3", "xorshift", NO_LIMIT);
    assert!(matches!(r, Err(BuildError::NoBuckets)));
    let r = PHash::from_text("a,b,c,a\n", "murmur3", "xorshift", NO_LIMIT);
    assert!(matches!(r, Err(BuildError::NoBuckets)));
}

#[test]
fn search_without_attempts_is_given_up() {
    let r = PHash::new("murmur3", "xorshift").unwrap().fill(texts(&["a", "b"]), 1, 0);
    assert!(matches!(r, Err(BuildError::PlacementExhausted)));
}

#[test]
fn search_that_cannot_succeed_is_given_up() {
    // Two items that nothing tells apart for the second-order hash: their
    // keys agree in the low 32 bits, which is all that xorshift reads.
    let items = vec![
        Item::with_key(text("a"), HashKey::Bits64(0x1_0000_0000)),
        Item::with_key(text("b"), HashKey::Bits64(0x2_0000_0000)),
    ];
    let r = PHash::new("murmur3", "xorshift").unwrap().fill_keyed(items, 1, 1000);
    assert!(matches!(r, Err(BuildError::PlacementExhausted)));
}

#[test]
fn first_item_skips_empty_buckets() {
    let items = vec![
        Item::with_key(text("late"), HashKey::Bits32(3)),
        Item::with_key(text("later"), HashKey::Bits32(7)),
        Item::with_key(text("other"), HashKey::Bits32(2)),
    ];
    let table = PHash::new("murmur3", "mxf").unwrap().fill_keyed(items, 4, NO_LIMIT).unwrap();
    assert_eq!(table.first_bucket().unwrap().len(), 0);
    assert_eq!(table.first_item().unwrap().item_type(), &text("other"));
    assert_eq!(table.buckets()[3].len(), 2);
    assert_eq!(table.buckets()[3].item(0).item_type(), &text("late"));
}

#[test]
fn placing_a_bucket_leaves_the_others_alone() {
    let so = SOHash::from_name("xorshift").unwrap();
    let mut buckets = vec![Bucket::new(so), Bucket::new(so), Bucket::new(so)];
    for k in 0..4u32 {
        buckets[0].try_insert(Item::with_key(ItemType::U32(k), HashKey::Bits32(3 * k)));
        buckets[1].try_insert(Item::with_key(ItemType::U32(100 + k), HashKey::Bits32(3 * k + 1)));
    }
    let mut occupied = vec![false; 8];
    assert!(place_bucket(&mut buckets, 0, &mut occupied, NO_LIMIT));
    let seed0 = buckets[0].so_hash().seed();
    let first: Vec<u32> = (0..4).map(|i| buckets[0].item(i).final_pos()).collect();
    let marks = occupied.clone();
    assert_eq!(marks.iter().filter(|o| **o).count(), 4);

    assert!(place_bucket(&mut buckets, 1, &mut occupied, NO_LIMIT));
    let again: Vec<u32> = (0..4).map(|i| buckets[0].item(i).final_pos()).collect();
    assert_eq!(again, first);
    assert_eq!(buckets[0].so_hash().seed(), seed0);
    assert_eq!(buckets[2].len(), 0);
    assert_eq!(buckets[2].so_hash().seed(), HashSeed::Bits32(0));
    for p in 0..8 {
        assert!(!marks[p] || occupied[p]);
    }
    assert!(occupied.iter().all(|o| *o));
    let second: Vec<u32> = (0..4).map(|i| buckets[1].item(i).final_pos()).collect();
    for p in second.iter() {
        assert!(!first.contains(p));
    }
}

#[test]
fn giving_up_on_a_bucket_changes_nothing() {
    let so = SOHash::from_name("mxf").unwrap();
    let mut buckets = vec![Bucket::new(so)];
    buckets[0].try_insert(Item::with_key(text("a"), HashKey::Bits32(1)));
    let mut occupied = vec![true, true];
    assert!(!place_bucket(&mut buckets, 0, &mut occupied, 50));
    assert_eq!(occupied, vec![true, true]);
    assert_eq!(buckets[0].so_hash().seed(), HashSeed::Bits64(0));
    assert_eq!(buckets[0].item(0).final_pos(), 0);
    assert!(!place_bucket(&mut buckets, 0, &mut vec![false], 0));
}

#[test]
fn text_is_cut_at_runs_of_newlines_and_commas() {
    let got = tokenize("alpha,beta\ngamma,,\n\ndelta\n").unwrap();
    assert_eq!(got, texts(&["alpha", "beta", "gamma", "delta"]));
    assert_eq!(tokenize(",lead\ntrail").unwrap(), texts(&["lead", "trail"]));
    assert_eq!(tokenize("one").unwrap(), texts(&["one"]));
    assert_eq!(tokenize("").unwrap(), Vec::<ItemType>::new());
    assert_eq!(tokenize("a b,c\td").unwrap(), texts(&["a b", "c\td"]));
}

#[test]
fn empty_pieces_make_no_payload() {
    let pieces = vec!["".to_string(), "a".to_string(), "".to_string(), "b".to_string(), "".to_string()];
    assert_eq!(payloads(pieces), texts(&["a", "b"]));
    assert_eq!(payloads(vec![String::new()]), Vec::<ItemType>::new());
    assert_eq!(payloads(Vec::new()), Vec::<ItemType>::new());
}

#[test]
fn table_from_text() {
    let content = "red,green,blue\ncyan,magenta,yellow\nblack,white,grey,pink\nred\n";
    let table = PHash::from_text(content, "murmur3", "xorshift", NO_LIMIT).unwrap();
    assert_eq!(table.buckets().len(), 1);
    assert_eq!(table.m(), 10);
    check_table(&table);
    let mut words: Vec<String> = table
        .items()
        .iter()
        .map(|i| match i.item_type() {
            ItemType::Str(s) => s.clone(),
            _ => unreachable!(),
        })
        .collect();
    words.sort();
    assert_eq!(
        words,
        vec!["black", "blue", "cyan", "green", "grey", "magenta", "pink", "red", "white", "yellow"]
    );
}

#[test]
fn filling_again_discards_what_was_there() {
    let first = PHash::new("fnv1a", "mxf").unwrap().fill(texts(&["a", "b", "c"]), 2, NO_LIMIT).unwrap();
    assert_eq!(first.m(), 3);
    let second = first.fill(texts(&["x"]), 1, NO_LIMIT).unwrap();
    assert_eq!(second.m(), 1);
    assert_eq!(second.fo_hash(), &FOHash::from_name("fnv1a").unwrap());
    assert_eq!(second.items()[0].item_type(), &text("x"));
}

#[test]
fn pattern_that_does_not_compile_is_refused() {
    assert_eq!(tokenize_by("(", "a,b"), Err(BadSeparators {}));
    assert_eq!(tokenize_by("[", ""), Err(BadSeparators {}));
    assert_eq!(tokenize_by(";", "a;b;;c").unwrap(), texts(&["a", "b", "c"]));
    assert_eq!(tokenize_by(r"\s+", " a  b\tc ").unwrap(), texts(&["a", "b", "c"]));
}

#[test]
fn more_than_32_bits_of_buckets_are_refused() {
    let r = PHash::new("murmur3", "xorshift").unwrap().fill(Vec::new(), 1usize << 32, NO_LIMIT);
    assert!(matches!(r, Err(BuildError::TooLarge)));
    let r = PHash::new("murmur3", "xorshift").unwrap().fill(texts(&["a"]), usize::MAX, NO_LIMIT);
    assert!(matches!(r, Err(BuildError::TooLarge)));
}

#[test]
fn twenty_tokens_get_two_buckets() {
    let content: String = (0..20).map(|i| format!("word{i}\n")).collect();
    let table = PHash::from_text(&content, "xxhash32", "mxf", NO_LIMIT).unwrap();
    assert_eq!(table.buckets().len(), 2);
    assert_eq!(table.m(), 20);
    check_table(&table);
}

#[test]
fn table_is_no_larger_than_its_input() {
    let words = ["a", "b", "a", "c", "b", "d", "e", "a"];
    let table = PHash::new("xxhash32", "mxf64").unwrap().fill(texts(&words), 3, NO_LIMIT).unwrap();
    assert_eq!(table.m(), 5);
    assert!(table.m() <= words.len());
    check_table(&table);
}

#[test]
fn empty_bucket_takes_the_first_seed_drawn() {
    let mut buckets = vec![Bucket::new(SOHash::from_name("mxf64").unwrap())];
    let mut occupied: Vec<bool> = Vec::new();
    assert!(place_bucket(&mut buckets, 0, &mut occupied, 1));
    assert!(matches!(buckets[0].so_hash().seed(), HashSeed::Bits64(_)));
    assert!(occupied.is_empty());
}

#[test]
fn drawn_seeds_have_the_width_asked_for() {
    for _ in 0..20 {
        assert!(matches!(draw_seed(true), HashSeed::Bits64(_)));
        assert!(matches!(draw_seed(false), HashSeed::Bits32(_)));
    }
}

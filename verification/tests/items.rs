use pho::first_order::FOHash;
use pho::hash::HashKey;
use pho::item::{Item, ItemType};

#[test]
fn payload_bytes_of_strings_are_utf8() {
    assert_eq!(ItemType::Str("abc".to_string()).hashable(), b"abc".to_vec());
    assert_eq!(ItemType::Str(String::new()).hashable(), Vec::<u8>::new());
    assert_eq!(ItemType::Str("é".to_string()).hashable(), vec![0xc3, 0xa9]);
}

#[test]
fn payload_bytes_of_numbers_are_little_endian() {
    assert_eq!(ItemType::U32(0x0403_0201).hashable(), vec![1, 2, 3, 4]);
    assert_eq!(ItemType::U64(0x0807_0605_0403_0201).hashable(), vec![1, 2, 3, 4, 5, 6, 7, 8]);
    assert_eq!(ItemType::I32(-2).hashable(), vec![0xfe, 0xff, 0xff, 0xff]);
    assert_eq!(ItemType::I64(-2).hashable(), vec![0xfe, 0xff, 0xff, 0xff, 0xff, 0xff, 0xff, 0xff]);
    assert_eq!(ItemType::I32(i32::MIN).hashable(), i32::MIN.to_le_bytes().to_vec());
    assert_eq!(ItemType::I64(i64::MAX).hashable(), i64::MAX.to_le_bytes().to_vec());
}

#[test]
fn payloads_are_equal_when_variant_and_value_are() {
    assert_eq!(ItemType::Str("a".to_string()), ItemType::Str("a".to_string()));
    assert_ne!(ItemType::Str("a".to_string()), ItemType::Str("b".to_string()));
    assert_ne!(ItemType::U32(1), ItemType::I32(1));
    assert_ne!(ItemType::U32(1), ItemType::U64(1));
    assert_eq!(ItemType::I64(-5), ItemType::I64(-5));
    assert_ne!(ItemType::I64(-5), ItemType::I64(5));
    assert_eq!(ItemType::default(), ItemType::Str(String::new()));
}

#[test]
fn new_item_carries_the_key_of_its_payload() {
    let fo = FOHash::from_name("fnv1a").unwrap();
    let item = Item::new(ItemType::Str("a".to_string()), &fo);
    assert_eq!(item.key(), HashKey::Bits32(0xe40c292c));
    assert_eq!(item.item_type(), &ItemType::Str("a".to_string()));
    assert_eq!(item.final_pos(), 0);
    let wide = FOHash::from_name("xxhash64").unwrap();
    let item = Item::new(ItemType::Str("abc".to_string()), &wide);
    assert_eq!(item.key(), HashKey::Bits64(0x44bc2cf5ad770999));
}

#[test]
fn number_items_hash_their_bytes() {
    let fo = FOHash::from_name("murmur3").unwrap();
    let item = Item::new(ItemType::U32(0x6463_6261), &fo);
    assert_eq!(item.key(), HashKey::Bits32(0x089a9394));
    let as_text = Item::new(ItemType::Str("abcd".to_string()), &fo);
    assert_eq!(item.key(), as_text.key());
}

#[test]
fn item_with_a_given_key_keeps_it() {
    let mut item = Item::with_key(ItemType::U32(9), HashKey::Bits32(1234));
    assert_eq!(item.key(), HashKey::Bits32(1234));
    assert_eq!(item.item_type(), &ItemType::U32(9));
    item.place(17);
    assert_eq!(item.final_pos(), 17);
    assert_eq!(item.key(), HashKey::Bits32(1234));
    let blank = Item::default();
    assert_eq!(blank.key(), HashKey::Bits32(0));
    assert_eq!(blank.final_pos(), 0);
}

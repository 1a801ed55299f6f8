use std::str::FromStr;

use pho::first_order::{FOHash, Murmur3, XXHash32, XXHash64, FNV1A};
use pho::hash::HashKey;

fn fox() -> Vec<u8> {
    b"The quick brown fox jumps over the lazy dog".to_vec()
}

fn counting(n: u8) -> Vec<u8> {
    (0..n).collect()
}

#[test]
fn fnv1a_of_empty_input_is_offset_basis() {
    assert_eq!(FNV1A::hash(&Vec::new()), HashKey::Bits32(0x811c9dc5));
    assert_eq!(FNV1A::hash(&Vec::new()), HashKey::Bits32(2166136261));
}

#[test]
fn fnv1a_of_letter_a() {
    assert_eq!(FNV1A::hash(&b"a".to_vec()), HashKey::Bits32(0xe40c292c));
}

#[test]
fn fnv1a_reference_vectors() {
    assert_eq!(FNV1A::hash(&b"ab".to_vec()), HashKey::Bits32(0x4d2505ca));
    assert_eq!(FNV1A::hash(&b"abc".to_vec()), HashKey::Bits32(0x1a47e90b));
    assert_eq!(FNV1A::hash(&b"hello".to_vec()), HashKey::Bits32(0x4f9f2cab));
    assert_eq!(FNV1A::hash(&fox()), HashKey::Bits32(0x048fff90));
    assert_eq!(FNV1A::hash(&counting(100)), HashKey::Bits32(0xde239011));
}

#[test]
fn streaming_mix_32_vectors() {
    assert_eq!(XXHash32::hash(&Vec::new()), HashKey::Bits32(0x6e954553));
    assert_eq!(XXHash32::hash(&b"a".to_vec()), HashKey::Bits32(0xefc16c27));
    assert_eq!(XXHash32::hash(&b"ab".to_vec()), HashKey::Bits32(0x8d80973b));
    assert_eq!(XXHash32::hash(&b"abc".to_vec()), HashKey::Bits32(0xb9944d52));
    assert_eq!(XXHash32::hash(&b"abcd".to_vec()), HashKey::Bits32(0xa345aed2));
    assert_eq!(XXHash32::hash(&b"hello".to_vec()), HashKey::Bits32(0xafdc3050));
    assert_eq!(XXHash32::hash(&fox()), HashKey::Bits32(0x903b7ec9));
    assert_eq!(XXHash32::hash(&counting(100)), HashKey::Bits32(0xf1c7d954));
    assert_eq!(XXHash32::hash(&counting(7)), HashKey::Bits32(0xb0797d57));
    assert_eq!(XXHash32::hash(&counting(12)), HashKey::Bits32(0xacb51f0f));
}

#[test]
fn block_hash_vectors() {
    assert_eq!(Murmur3::hash(&Vec::new()), HashKey::Bits32(0x1b4e808d));
    assert_eq!(Murmur3::hash(&b"a".to_vec()), HashKey::Bits32(0x3e7da403));
    assert_eq!(Murmur3::hash(&b"ab".to_vec()), HashKey::Bits32(0xa497bb5d));
    assert_eq!(Murmur3::hash(&b"abc".to_vec()), HashKey::Bits32(0x31cb0916));
    assert_eq!(Murmur3::hash(&b"abcd".to_vec()), HashKey::Bits32(0x089a9394));
    assert_eq!(Murmur3::hash(&b"hello".to_vec()), HashKey::Bits32(0xe7a2f2e6));
    assert_eq!(Murmur3::hash(&fox()), HashKey::Bits32(0x4b82e7de));
    assert_eq!(Murmur3::hash(&counting(100)), HashKey::Bits32(0x18027104));
    assert_eq!(Murmur3::hash(&counting(7)), HashKey::Bits32(0x5d2e851c));
}

#[test]
fn streaming_mix_64_short_inputs() {
    assert_eq!(XXHash64::hash(&Vec::new()), HashKey::Bits64(0xef46db3751d8e999));
    assert_eq!(XXHash64::hash(&b"a".to_vec()), HashKey::Bits64(0xd24ec4f1a98c6e5b));
    assert_eq!(XXHash64::hash(&b"ab".to_vec()), HashKey::Bits64(0x65f708ca92d04a61));
    assert_eq!(XXHash64::hash(&b"abc".to_vec()), HashKey::Bits64(0x44bc2cf5ad770999));
    assert_eq!(XXHash64::hash(&b"abcd".to_vec()), HashKey::Bits64(0xde0327b0d25d92cc));
    assert_eq!(XXHash64::hash(&b"hello".to_vec()), HashKey::Bits64(0x26c7827d889f6da3));
    assert_eq!(XXHash64::hash(&counting(7)), HashKey::Bits64(0x14cc643f630c72d2));
    assert_eq!(XXHash64::hash(&counting(12)), HashKey::Bits64(0x424af23f1f08dca5));
}

#[test]
fn streaming_mix_64_wide_blocks() {
    assert_eq!(XXHash64::hash(&counting(32)), HashKey::Bits64(0xcbf59c5116ff32b4));
    assert_eq!(XXHash64::hash(&fox()), HashKey::Bits64(0x0b242d361fda71bc));
    assert_eq!(XXHash64::hash(&counting(100)), HashKey::Bits64(0x6ac1e58032166597));
}

#[test]
fn repeated_calls_give_the_same_key() {
    let inputs = vec![Vec::new(), b"a".to_vec(), fox(), counting(100), counting(33)];
    let hashes = vec!["fnv1a", "xxhash32", "murmur3", "xxhash64"];
    for name in hashes.iter() {
        let h = FOHash::from_name(name).unwrap();
        for input in inputs.iter() {
            let first = h.hash(input);
            assert_eq!(h.hash(input), first);
            assert_eq!(h.hash(&input.clone()), first);
        }
    }
}

#[test]
fn family_dispatches_to_its_variants() {
    let input = b"hello".to_vec();
    assert_eq!(FOHash::FNV1A(FNV1A {}).hash(&input), FNV1A::hash(&input));
    assert_eq!(FOHash::XXHash32(XXHash32 {}).hash(&input), XXHash32::hash(&input));
    assert_eq!(FOHash::Murmur3(Murmur3 {}).hash(&input), Murmur3::hash(&input));
    assert_eq!(FOHash::XXHash64(XXHash64 {}).hash(&input), XXHash64::hash(&input));
}

#[test]
fn first_order_names_are_found() {
    assert_eq!(FOHash::from_name("fnv1a"), Ok(FOHash::FNV1A(FNV1A {})));
    assert_eq!(FOHash::from_name("xxhash32"), Ok(FOHash::XXHash32(XXHash32 {})));
    assert_eq!(FOHash::from_name("murmur3"), Ok(FOHash::Murmur3(Murmur3 {})));
    assert_eq!(FOHash::from_name("xxhash64"), Ok(FOHash::XXHash64(XXHash64 {})));
    assert_eq!(FOHash::from_name("fnv1a").unwrap().name(), "fnv1a");
    assert_eq!(FOHash::from_name("xxhash32").unwrap().name(), "xxhash32");
    assert_eq!(FOHash::from_name("murmur3").unwrap().name(), "murmur3");
    assert_eq!(FOHash::from_name("xxhash64").unwrap().name(), "xxhash64");
}

#[test]
fn unknown_first_order_name_is_an_error() {
    assert!(FOHash::from_name("sha1").is_err());
    assert!(FOHash::from_name("").is_err());
    assert!(FOHash::from_name("FNV1A").is_err());
    assert!(FOHash::from_name("fnv1a ").is_err());
    assert_eq!(
        FOHash::from_str("nope"),
        Err("Cannot find a corresponding first-order hash. Expected: fnv1a, xxhash32, murmur3, xxhash64")
    );
    assert_eq!(FOHash::from_str("murmur3"), Ok(FOHash::Murmur3(Murmur3 {})));
}

#[test]
fn default_first_order_hash_is_the_block_hash() {
    assert_eq!(FOHash::default(), FOHash::Murmur3(Murmur3 {}));
    assert_eq!(FOHash::default().name(), "murmur3");
}

#[test]
fn only_the_64_bit_hash_is_wide() {
    assert!(!FOHash::from_name("fnv1a").unwrap().is_64bits());
    assert!(!FOHash::from_name("xxhash32").unwrap().is_64bits());
    assert!(!FOHash::from_name("murmur3").unwrap().is_64bits());
    assert!(FOHash::from_name("xxhash64").unwrap().is_64bits());
    assert!(matches!(FOHash::from_name("xxhash64").unwrap().hash(&Vec::new()), HashKey::Bits64(_)));
    assert!(matches!(FOHash::from_name("murmur3").unwrap().hash(&Vec::new()), HashKey::Bits32(_)));
}

#[test]
fn from_str_agrees_with_from_name() {
    for name in ["fnv1a", "xxhash32", "murmur3", "xxhash64"] {
        assert_eq!(FOHash::from_str(name).ok(), FOHash::from_name(name).ok());
        assert_eq!(name.parse::<FOHash>().unwrap().name(), name);
    }
    for name in ["", "mxf", "Murmur3", "xxhash"] {
        assert_eq!(
            FOHash::from_str(name),
            Err("Cannot find a corresponding first-order hash. Expected: fnv1a, xxhash32, murmur3, xxhash64")
        );
    }
}

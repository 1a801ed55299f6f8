use pho::bits::{load_le32, load_le64, rotate_left_32, rotate_left_64, store_le32, store_le64};
use pho::hash::{HashKey, HashSeed};
use pho::text::str_eq;

#[test]
fn key_narrowing_keeps_the_low_half() {
    assert_eq!(HashKey::Bits64(0x1234_5678_9abc_def0).as_u32(), 0x9abc_def0);
    assert_eq!(HashKey::Bits32(0xdead_beef).as_u32(), 0xdead_beef);
    assert_eq!(HashKey::Bits32(0xdead_beef).as_u64(), 0xdead_beef);
    assert_eq!(HashKey::Bits64(u64::MAX).as_u64(), u64::MAX);
}

#[test]
fn key_conversions() {
    assert_eq!(HashKey::from(7u32), HashKey::Bits32(7));
    assert_eq!(HashKey::from(7u64), HashKey::Bits64(7));
    assert_eq!(HashKey::default(), HashKey::Bits32(0));
    let narrow: u32 = HashKey::Bits64(0x1_0000_0005).into();
    assert_eq!(narrow, 5);
    let wide: u64 = HashKey::Bits32(0xffff_ffff).into();
    assert_eq!(wide, 0xffff_ffff);
    let same: u64 = HashKey::Bits64(0x1_0000_0005).into();
    assert_eq!(same, 0x1_0000_0005);
}

#[test]
fn key_modulo_32_drops_the_high_half_first() {
    assert_eq!(HashKey::Bits64(0x1_0000_0005) % 4u32, 1);
    assert_eq!(HashKey::Bits64(0xffff_ffff_0000_0007) % 10u32, 7);
    assert_eq!(HashKey::Bits32(17) % 5u32, 2);
    assert_eq!(HashKey::Bits32(u32::MAX) % 1u32, 0);
}

#[test]
fn key_modulo_64_uses_the_whole_key() {
    assert_eq!(HashKey::Bits64(0x1_0000_0005) % 4u64, 1);
    assert_eq!(HashKey::Bits64(0xffff_ffff_0000_0007) % 10u64, 0xffff_ffff_0000_0007u64 % 10);
    assert_eq!(HashKey::Bits32(17) % 5u64, 2);
}

#[test]
fn seed_narrowing_truncates() {
    let s = HashSeed::Bits128(0x1111_2222_3333_4444_5555_6666_7777_8888);
    assert_eq!(s.as_u32(), 0x7777_8888);
    assert_eq!(s.as_u64(), 0x5555_6666_7777_8888);
    assert_eq!(s.as_u128(), 0x1111_2222_3333_4444_5555_6666_7777_8888);
    assert_eq!(HashSeed::Bits64(0x1_0000_0002).as_u32(), 2);
    assert_eq!(HashSeed::Bits64(0x1_0000_0002).as_u128(), 0x1_0000_0002);
    assert_eq!(HashSeed::Bits32(9).as_u64(), 9);
    assert_eq!(HashSeed::Bits32(9).as_u128(), 9);
}

#[test]
fn seed_conversions() {
    assert_eq!(HashSeed::from(1u32), HashSeed::Bits32(1));
    assert_eq!(HashSeed::from(1u64), HashSeed::Bits64(1));
    assert_eq!(HashSeed::from(1u128), HashSeed::Bits128(1));
    let a: u32 = HashSeed::Bits64(0x1_0000_0002).into();
    let b: u64 = HashSeed::Bits128(1 << 70 | 9).into();
    let c: u128 = HashSeed::Bits32(3).into();
    assert_eq!((a, b, c), (2, 9, 3));
}

#[test]
fn rotations_match_the_standard_ones() {
    let xs = [0u32, 1, 0x8000_0000, 0xdead_beef, u32::MAX];
    for x in xs {
        for r in [1u32, 13, 15, 31] {
            assert_eq!(rotate_left_32(x, r), x.rotate_left(r));
        }
    }
    let ys = [0u64, 1, 0x8000_0000_0000_0000, 0xdead_beef_0bad_f00d, u64::MAX];
    for y in ys {
        for r in [1u32, 7, 12, 18, 27, 31, 63] {
            assert_eq!(rotate_left_64(y, r), y.rotate_left(r));
        }
    }
}

#[test]
fn little_endian_loads_and_stores() {
    let bytes = vec![0x01, 0x02, 0x03, 0x04, 0x05, 0x06, 0x07, 0x08, 0x09];
    assert_eq!(load_le32(&bytes, 0), 0x0403_0201);
    assert_eq!(load_le32(&bytes, 5), 0x0908_0706);
    assert_eq!(load_le64(&bytes, 0), 0x0807_0605_0403_0201);
    assert_eq!(load_le64(&bytes, 1), 0x0908_0706_0504_0302);
    assert_eq!(store_le32(0x0403_0201), vec![1, 2, 3, 4]);
    assert_eq!(store_le64(0x0807_0605_0403_0201), vec![1, 2, 3, 4, 5, 6, 7, 8]);
    assert_eq!(store_le32(0xdead_beef), 0xdead_beefu32.to_le_bytes().to_vec());
    assert_eq!(store_le64(u64::MAX - 1), (u64::MAX - 1).to_le_bytes().to_vec());
}

#[test]
fn string_slices_compare_by_their_characters() {
    assert!(str_eq("", ""));
    assert!(str_eq("murmur3", "murmur3"));
    assert!(!str_eq("murmur3", "murmur"));
    assert!(!str_eq("xxhash32", "xxhash64"));
    assert!(str_eq("héllo", "héllo"));
    assert!(!str_eq("héllo", "hello"));
}

use std::hash::Hasher;

use hwaddr::{generate_hwaddr, generate_hwaddr_bytes, HwAddr, HwAddrHasher};

#[test]
fn it_works() {
    let hwaddr = generate_hwaddr(&23);
    assert_eq!(hwaddr.len(), 6);
    assert_eq!(hwaddr[0] & 0b11, 0b10);
}

fn prop(xs: Vec<isize>) -> bool {
    let hwaddr = generate_hwaddr(&xs);
    hwaddr.len() == 6 && hwaddr[0] & 0b11 == 0b10
}

#[test]
fn prop_any_vec_gives_marked_address() {
    quickcheck::QuickCheck::new().quickcheck(prop as fn(Vec<isize>) -> bool);
}

#[test]
fn empty_input_gives_marked_zero_address() {
    assert_eq!(generate_hwaddr_bytes(&[]), [0b10, 0, 0, 0, 0, 0]);
    assert_eq!(HwAddrHasher::new().unwrap(), [0b10, 0, 0, 0, 0, 0]);
}

#[test]
fn single_byte_23() {
    let mut hasher = HwAddrHasher::new();
    hasher.ingest(23);
    assert_eq!(hasher.unwrap(), [0x16, 0, 0, 0, 0, 0]);
    assert_eq!(generate_hwaddr_bytes(&[23]), [0x16, 0, 0, 0, 0, 0]);
}

#[test]
fn single_byte_through_hasher_trait() {
    let mut hasher = HwAddrHasher::new();
    hasher.write_u8(23);
    assert_eq!(hasher.finish(), 0);
    assert_eq!(hasher.unwrap(), [0x16, 0, 0, 0, 0, 0]);
}

#[test]
fn hash_of_u8_and_i32() {
    assert_eq!(generate_hwaddr(&23u8), [0x16, 0, 0, 0, 0, 0]);
    let expected: HwAddr = generate_hwaddr_bytes(&23i32.to_ne_bytes());
    assert_eq!(generate_hwaddr(&23i32), expected);
}

#[test]
fn hash_of_vec_uses_length_prefix() {
    let mut bytes: Vec<u8> = (3usize).to_ne_bytes().to_vec();
    bytes.extend_from_slice(&[1, 2, 3]);
    assert_eq!(generate_hwaddr(&vec![1u8, 2, 3]), generate_hwaddr_bytes(&bytes));
    // a 64-bit little-endian length prefix: 3, 0, 0, 0, 0, 0, 0, 0
    if usize::BITS == 64 && 1usize.to_le() == 1 {
        assert_eq!(generate_hwaddr(&vec![1u8, 2, 3]), [0b10, 0, 1, 2, 3, 0]);
    }
}

#[test]
fn repeated_block_cancels() {
    let bytes = [1, 2, 3, 4, 5, 6, 1, 2, 3, 4, 5, 6];
    assert_eq!(generate_hwaddr_bytes(&bytes), generate_hwaddr_bytes(&[]));
    assert_eq!(generate_hwaddr_bytes(&bytes), [0b10, 0, 0, 0, 0, 0]);
}

#[test]
fn seventh_byte_wraps_to_first_slot() {
    assert_eq!(generate_hwaddr_bytes(&[1, 0, 0, 0, 0, 0, 4]), [6, 0, 0, 0, 0, 0]);
    assert_eq!(
        generate_hwaddr_bytes(&[0xff, 0x10, 0x20, 0x30, 0x40, 0x50]),
        [0xfe, 0x10, 0x20, 0x30, 0x40, 0x50]
    );
}

#[test]
fn distinct_inputs_may_collide() {
    let a = [7u8];
    let b = [7u8, 0, 0, 0, 0, 0, 3, 0, 0, 0, 0, 0, 3];
    assert_ne!(&a[..], &b[..]);
    assert_eq!(generate_hwaddr_bytes(&a), generate_hwaddr_bytes(&b));
}

#[test]
fn order_of_bytes_matters() {
    assert_eq!(generate_hwaddr_bytes(&[1, 2]), [0b10, 2, 0, 0, 0, 0]);
    assert_eq!(generate_hwaddr_bytes(&[2, 1]), [0b10, 1, 0, 0, 0, 0]);
    assert_eq!(generate_hwaddr_bytes(&[4, 1]), [0b110, 1, 0, 0, 0, 0]);
}

#[test]
fn ingest_many_matches_single_ingests() {
    let mut one = HwAddrHasher::new();
    let mut many = HwAddrHasher::new();
    for b in [9u8, 8, 7, 6, 5, 4, 3, 2] {
        one.ingest(b);
    }
    many.ingest_many(&[9, 8, 7, 6, 5, 4, 3, 2]);
    assert_eq!(one.unwrap(), many.unwrap());
}

#[test]
fn same_input_same_address() {
    assert_eq!(generate_hwaddr(&"eth0"), generate_hwaddr(&"eth0"));
    assert_eq!(generate_hwaddr(&(1u16, 2u64)), generate_hwaddr(&(1u16, 2u64)));
}

#[test]
fn write_empty_changes_nothing() {
    let mut hasher = HwAddrHasher::new();
    hasher.write(&[5, 6]);
    hasher.write(&[]);
    hasher.write_u8(0);
    let mut other = HwAddrHasher::new();
    other.write(&[5, 6, 0]);
    assert_eq!(hasher.unwrap(), other.unwrap());
}

#[test]
fn write_chunking_does_not_matter() {
    let mut whole = HwAddrHasher::new();
    whole.write(&[1, 2, 3, 4, 5, 6, 7]);
    let mut parts = HwAddrHasher::new();
    parts.write(&[1, 2, 3]);
    parts.write(&[4, 5, 6, 7]);
    assert_eq!(whole.unwrap(), [6, 2, 3, 4, 5, 6]);
    assert_eq!(parts.unwrap(), [6, 2, 3, 4, 5, 6]);
}

#[test]
fn write_repeated_block_cancels() {
    let mut hasher = HwAddrHasher::new();
    hasher.write(&[1, 2, 3, 4, 5, 6, 1, 2, 3, 4, 5, 6]);
    assert_eq!(hasher.unwrap(), [0b10, 0, 0, 0, 0, 0]);
}

#[test]
fn block_aligned_writes_commute() {
    let a = [1u8, 2, 3, 4, 5, 6];
    let b = [9u8, 8, 7, 6, 5, 4, 3, 2, 1, 0, 10, 11];
    let mut ab = HwAddrHasher::new();
    ab.write_u8(0x40);
    ab.write(&a);
    ab.write(&b);
    let mut ba = HwAddrHasher::new();
    ba.write_u8(0x40);
    ba.write(&b);
    ba.write(&a);
    assert_eq!(ab.unwrap(), ba.unwrap());
}

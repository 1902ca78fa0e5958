//! Hashes anything to a private, unicast hardware (MAC) address.
//!
//! The bytes that a value is fed as come from its `core::hash::Hash` impl:
//! for compound types (slices, tuples, strings) that layout is std's convention,
//! so addresses of such values change if std's `Hash` impls do.
use vstd::prelude::*;

pub mod fold;
pub mod hasher;

pub use hasher::HwAddrHasher;

use fold::{address_of, fresh_state, ingest_all};
use hasher::feed_hash;

verus! {

/// A six-byte hardware address.
pub type HwAddr = [u8; 6];

/// Number of bytes in a hardware address.
pub const HWADDR_LEN: usize = 6;

/// Generate a private MAC address from a stream of bytes.
pub fn generate_hwaddr_bytes(bytes: &[u8]) -> (r: HwAddr)
    ensures
        r@ == address_of(bytes@),
        r@.len() == HWADDR_LEN,
        r[0] & 0b11u8 == 0b10u8,
{
    let mut hasher = HwAddrHasher::new();
    hasher.ingest_many(bytes);
    hasher.unwrap()
}

/// Generate a private MAC address by hashing something: the address of the
/// bytes that `input`'s `Hash` impl feeds in.
pub fn generate_hwaddr<H: core::hash::Hash>(input: &H) -> (r: HwAddr)
    ensures
        exists|bytes: Seq<u8>| r@ == address_of(bytes),
        r@.len() == HWADDR_LEN,
        r[0] & 0b11u8 == 0b10u8,
{
    let mut hasher = HwAddrHasher::new();
    feed_hash(input, &mut hasher);
    let ghost bytes = choose|bytes: Seq<u8>| hasher@ == ingest_all(fresh_state(), bytes);
    let r = hasher.unwrap();
    assert(r@ == address_of(bytes));
    r
}

} // verus!

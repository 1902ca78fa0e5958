//! The executable accumulator, usable as a `core::hash::Hasher`.
use vstd::prelude::*;

use crate::fold::{FoldState, fresh_state, ingest, ingest_all, finalize};
use crate::{HwAddr, HWADDR_LEN};

verus! {

/// Accumulates bytes into a six-byte buffer by cyclic xor.
pub struct HwAddrHasher {
    addr: HwAddr,
    pos: usize,
}

impl View for HwAddrHasher {
    type V = FoldState;

    closed spec fn view(&self) -> FoldState {
        FoldState { addr: self.addr@, pos: self.pos as nat }
    }
}

impl HwAddrHasher {
    #[verifier::type_invariant]
    spec fn inv(&self) -> bool {
        self.pos < HWADDR_LEN
    }

    /// Produce a new hasher
    pub fn new() -> (r: HwAddrHasher)
        ensures
            r@ == fresh_state(),
            r@.wf(),
    {
        let r = HwAddrHasher { addr: [0u8; 6], pos: 0 };
        assert(r@.addr =~= fresh_state().addr);
        r
    }

    /// Xors one byte into the current slot and moves on to the next.
    pub fn ingest(&mut self, byte: u8)
        ensures
            old(self)@.wf(),
            final(self)@ == ingest(old(self)@, byte),
            final(self)@.wf(),
    {
        proof {
            use_type_invariant(&*self);
        }
        let pos = self.pos;
        let cur = self.addr[pos];
        self.addr[pos] = cur ^ byte;
        let next: usize = if pos + 1 >= HWADDR_LEN { 0 } else { pos + 1 };
        self.pos = next;
    }

    /// Takes in each byte of `bytes`, in order.
    pub fn ingest_many(&mut self, bytes: &[u8])
        ensures
            old(self)@.wf(),
            final(self)@ == ingest_all(old(self)@, bytes@),
            final(self)@.wf(),
    {
        proof {
            use_type_invariant(&*self);
        }
        let ghost start = self@;
        let mut i: usize = 0;
        while i < bytes.len()
            invariant
                i <= bytes@.len(),
                self@ == ingest_all(start, bytes@.take(i as int)),
                self@.wf(),
                start.wf(),
            decreases bytes@.len() - i,
        {
            proof {
                assert(bytes@.take(i as int + 1).drop_last() =~= bytes@.take(i as int));
            }
            self.ingest(bytes[i]);
            i = i + 1;
        }
        assert(bytes@.take(i as int) =~= bytes@);
    }

    /// Obtain the resulting address
    pub fn unwrap(self) -> (r: HwAddr)
        ensures
            self@.wf(),
            r@ == finalize(self@.addr),
            r@.len() == HWADDR_LEN,
            r[0] & 0b11u8 == 0b10u8,
    {
        proof {
            use_type_invariant(&self);
        }
        let mut addr = self.addr;
        let first = addr[0];
        addr[0] = (first & 0b1111_1100u8) | 0b10u8;
        assert(((first & 0b1111_1100u8) | 0b10u8) & 0b11u8 == 0b10u8) by (bit_vector);
        assert(addr@ =~= finalize(self@.addr));
        addr
    }
}

impl core::hash::Hasher for HwAddrHasher {
    /// Takes in each byte of `bytes`, in order.
    fn write(&mut self, bytes: &[u8])
        ensures
            final(self)@ == ingest_all(old(self)@, bytes@),
    {
        self.ingest_many(bytes);
    }

    /// Xors one byte into the current slot and moves on to the next.
    fn write_u8(&mut self, byte: u8)
        ensures
            final(self)@ == ingest(old(self)@, byte),
    {
        self.ingest(byte);
    }

    /// The `u64` digest is not what this hasher is for: it is always zero.
    fn finish(&self) -> (r: u64)
        ensures
            r == 0,
    {
        0
    }
}

/// Relies on `core::hash::Hash::hash`: an impl reaches the hasher only through
/// the methods of `core::hash::Hasher`, and every one of them, on this hasher,
/// takes in some bytes: `write` and `write_u8` above state so in their
/// contracts, and std's provided methods forward to those two. Which bytes
/// depends on the impl of `H`.
#[verifier::external_body]
pub(crate) fn feed_hash<H: core::hash::Hash>(input: &H, hasher: &mut HwAddrHasher)
    ensures
        exists|bytes: Seq<u8>| final(hasher)@ == ingest_all(old(hasher)@, bytes),
{
    input.hash(hasher)
}

} // verus!

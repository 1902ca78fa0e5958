//! The accumulator's mathematical model: six bytes folded by cyclic xor, and
//! the address that a folded buffer finalizes to.
use vstd::prelude::*;

use crate::HWADDR_LEN;

verus! {

/// The abstract state of the accumulator: six folded bytes and the slot that
/// the next byte goes to.
pub struct FoldState {
    pub addr: Seq<u8>,
    pub pos: nat,
}

impl FoldState {
    pub open spec fn wf(self) -> bool {
        self.addr.len() == HWADDR_LEN && self.pos < HWADDR_LEN
    }
}

/// The state before any byte has been taken in.
pub open spec fn fresh_state() -> FoldState {
    FoldState { addr: seq![0u8, 0u8, 0u8, 0u8, 0u8, 0u8], pos: 0 }
}

/// Takes in one byte: xor it into the current slot, then move to the next slot,
/// wrapping round after the last.
pub open spec fn ingest(s: FoldState, byte: u8) -> FoldState {
    FoldState {
        addr: s.addr.update(s.pos as int, s.addr[s.pos as int] ^ byte),
        pos: if s.pos + 1 >= HWADDR_LEN { 0 } else { s.pos + 1 },
    }
}

/// Takes in a sequence of bytes, in order.
pub open spec fn ingest_all(s: FoldState, bytes: Seq<u8>) -> FoldState
    decreases bytes.len(),
{
    if bytes.len() == 0 {
        s
    } else {
        ingest(ingest_all(s, bytes.drop_last()), bytes.last())
    }
}

/// Marks the low two bits of the first byte: locally administered, unicast.
pub open spec fn mark_first(b: u8) -> u8 {
    (b & 0b1111_1100u8) | 0b10u8
}

/// The address that a folded buffer finalizes to.
pub open spec fn finalize(addr: Seq<u8>) -> Seq<u8> {
    addr.update(0, mark_first(addr[0]))
}

/// The address generated from a whole byte stream.
pub open spec fn address_of(bytes: Seq<u8>) -> Seq<u8> {
    finalize(ingest_all(fresh_state(), bytes).addr)
}

/// How many slots past `start` the slot `i` lies, going round.
pub open spec fn offset(i: int, start: int) -> int {
    if i >= start { i - start } else { i + HWADDR_LEN - start }
}

/// Taking in bytes keeps the state well-formed.
pub proof fn lemma_ingest_all_wf(s: FoldState, bytes: Seq<u8>)
    requires
        s.wf(),
    ensures
        ingest_all(s, bytes).wf(),
    decreases bytes.len(),
{
    if bytes.len() > 0 {
        lemma_ingest_all_wf(s, bytes.drop_last());
    }
}

/// Taking in `a` and then `b` is taking in `a + b`.
pub proof fn lemma_ingest_all_append(s: FoldState, a: Seq<u8>, b: Seq<u8>)
    ensures
        ingest_all(s, a + b) == ingest_all(ingest_all(s, a), b),
    decreases b.len(),
{
    if b.len() == 0 {
        assert(a + b =~= a);
    } else {
        assert((a + b).drop_last() =~= a + b.drop_last());
        lemma_ingest_all_append(s, a, b.drop_last());
    }
}

/// After the first `k` bytes of a block of six, the cursor has moved `k` slots
/// and exactly the first `k` slots from the start hold one byte of the block.
proof fn lemma_block_prefix(s: FoldState, block: Seq<u8>, k: int)
    requires
        s.wf(),
        block.len() == HWADDR_LEN,
        0 <= k <= HWADDR_LEN,
    ensures
        ingest_all(s, block.take(k)).wf(),
        ingest_all(s, block.take(k)).pos == (if s.pos + k >= HWADDR_LEN {
            s.pos + k - HWADDR_LEN
        } else {
            s.pos + k
        }),
        forall|i: int|
            0 <= i < HWADDR_LEN ==> #[trigger] ingest_all(s, block.take(k)).addr[i] == if offset(
                i,
                s.pos as int,
            ) < k {
                s.addr[i] ^ block[offset(i, s.pos as int)]
            } else {
                s.addr[i]
            },
    decreases k,
{
    lemma_ingest_all_wf(s, block.take(k));
    if k > 0 {
        assert(block.take(k).drop_last() =~= block.take(k - 1));
        lemma_block_prefix(s, block, k - 1);
    }
}

/// Taking in a block of six bytes leaves the cursor where it was and xors
/// each byte of the block into one slot.
pub proof fn lemma_ingest_block(s: FoldState, block: Seq<u8>)
    requires
        s.wf(),
        block.len() == HWADDR_LEN,
    ensures
        ingest_all(s, block).wf(),
        ingest_all(s, block).pos == s.pos,
        forall|i: int|
            0 <= i < HWADDR_LEN ==> #[trigger] ingest_all(s, block).addr[i] == s.addr[i]
                ^ block[offset(i, s.pos as int)],
{
    lemma_block_prefix(s, block, HWADDR_LEN as int);
    assert(block.take(HWADDR_LEN as int) =~= block);
}

proof fn lemma_xor_twice(x: u8, y: u8)
    ensures
        (x ^ y) ^ y == x,
{
    assert((x ^ y) ^ y == x) by (bit_vector);
}

proof fn lemma_block_twice(s: FoldState, block: Seq<u8>)
    requires
        s.wf(),
        block.len() == HWADDR_LEN,
    ensures
        ingest_all(s, block + block) == s,
{
    lemma_ingest_all_append(s, block, block);
    let once = ingest_all(s, block);
    lemma_ingest_block(s, block);
    lemma_ingest_block(once, block);
    let twice = ingest_all(once, block);
    assert forall|i: int| 0 <= i < HWADDR_LEN implies twice.addr[i] == s.addr[i] by {
        lemma_xor_twice(s.addr[i], block[offset(i, s.pos as int)]);
    }
    assert(twice.addr =~= s.addr);
}

/// A block of six bytes taken in twice in a row cancels out: the state is
/// the one before, and the address is that of no bytes at all.
pub proof fn lemma_repeated_block_cancels(s: FoldState, block: Seq<u8>)
    requires
        s.wf(),
        block.len() == HWADDR_LEN,
    ensures
        ingest_all(s, block + block) == s,
        address_of(block + block) == address_of(Seq::empty()),
{
    lemma_block_twice(s, block);
    lemma_block_twice(fresh_state(), block);
}

/// The all-zero buffer with the cursor at `pos`.
pub open spec fn zero_at(pos: nat) -> FoldState {
    FoldState { addr: seq![0u8, 0u8, 0u8, 0u8, 0u8, 0u8], pos }
}

proof fn lemma_xor_assoc(x: u8, d: u8, b: u8)
    ensures
        (x ^ d) ^ b == x ^ (d ^ b),
        0u8 ^ b == b,
{
    assert((x ^ d) ^ b == x ^ (d ^ b)) by (bit_vector);
    assert(0u8 ^ b == b) by (bit_vector);
}

/// Whole blocks of six bytes leave the cursor where it was and xor into each
/// slot what they would xor into a zero buffer with the same cursor.
pub proof fn lemma_ingest_blocks(s: FoldState, bytes: Seq<u8>)
    requires
        s.wf(),
        bytes.len() % (HWADDR_LEN as nat) == 0,
    ensures
        ingest_all(s, bytes).wf(),
        ingest_all(s, bytes).pos == s.pos,
        forall|i: int|
            0 <= i < HWADDR_LEN ==> #[trigger] ingest_all(s, bytes).addr[i] == s.addr[i]
                ^ ingest_all(zero_at(s.pos), bytes).addr[i],
    decreases bytes.len(),
{
    let z = zero_at(s.pos);
    if bytes.len() == 0 {
        assert forall|i: int| 0 <= i < HWADDR_LEN implies #[trigger] ingest_all(s, bytes).addr[i]
            == s.addr[i] ^ ingest_all(z, bytes).addr[i] by {
            let x = s.addr[i];
            assert(x ^ 0u8 == x) by (bit_vector);
        }
    } else {
        let n = bytes.len() - HWADDR_LEN;
        let front = bytes.take(n);
        let blk = bytes.skip(n);
        assert(bytes =~= front + blk);
        lemma_ingest_all_append(s, front, blk);
        lemma_ingest_all_append(z, front, blk);
        lemma_ingest_blocks(s, front);
        lemma_ingest_blocks(z, front);
        let sf = ingest_all(s, front);
        let zf = ingest_all(z, front);
        lemma_ingest_block(sf, blk);
        lemma_ingest_block(zf, blk);
        assert forall|i: int| 0 <= i < HWADDR_LEN implies #[trigger] ingest_all(s, bytes).addr[i]
            == s.addr[i] ^ ingest_all(z, bytes).addr[i] by {
            let b = blk[offset(i, s.pos as int)];
            lemma_xor_assoc(s.addr[i], zf.addr[i], b);
            lemma_xor_assoc(0u8, z.addr[i], zf.addr[i]);
        }
    }
}

proof fn lemma_xor_swap(x: u8, p: u8, q: u8)
    ensures
        (x ^ p) ^ q == (x ^ q) ^ p,
{
    assert((x ^ p) ^ q == (x ^ q) ^ p) by (bit_vector);
}

/// Streams made of whole blocks of six bytes can be taken in in either order.
pub proof fn lemma_blocks_commute(s: FoldState, a: Seq<u8>, b: Seq<u8>)
    requires
        s.wf(),
        a.len() % (HWADDR_LEN as nat) == 0,
        b.len() % (HWADDR_LEN as nat) == 0,
    ensures
        ingest_all(ingest_all(s, a), b) == ingest_all(ingest_all(s, b), a),
{
    let sa = ingest_all(s, a);
    let sb = ingest_all(s, b);
    lemma_ingest_blocks(s, a);
    lemma_ingest_blocks(s, b);
    lemma_ingest_blocks(sa, b);
    lemma_ingest_blocks(sb, a);
    let ab = ingest_all(sa, b);
    let ba = ingest_all(sb, a);
    assert forall|i: int| 0 <= i < HWADDR_LEN implies ab.addr[i] == ba.addr[i] by {
        lemma_xor_swap(
            s.addr[i],
            ingest_all(zero_at(s.pos), a).addr[i],
            ingest_all(zero_at(s.pos), b).addr[i],
        );
    }
    assert(ab.addr =~= ba.addr);
}

/// Every generated address is six bytes long, locally administered and unicast.
pub proof fn lemma_address_shape(bytes: Seq<u8>)
    ensures
        address_of(bytes).len() == HWADDR_LEN,
        address_of(bytes)[0] & 0b11u8 == 0b10u8,
{
    lemma_ingest_all_wf(fresh_state(), bytes);
    let b = ingest_all(fresh_state(), bytes).addr[0];
    assert(((b & 0b1111_1100u8) | 0b10u8) & 0b11u8 == 0b10u8) by (bit_vector);
}

/// Distinct byte streams can fold to one address: the mixing is not
/// collision-resistant.
pub proof fn lemma_collisions_exist()
    ensures
        exists|a: Seq<u8>, b: Seq<u8>| a != b && address_of(a) == address_of(b),
{
    let block = seq![0u8, 0u8, 0u8, 0u8, 0u8, 0u8];
    lemma_repeated_block_cancels(fresh_state(), block);
    assert((block + block).len() != Seq::<u8>::empty().len());
    assert(block + block != Seq::<u8>::empty());
}

} // verus!

//! The digest of a message as a mathematical function: the message is closed
//! by a trailer that records its length, cut into 64-byte blocks, and the
//! blocks are compressed in order into the initial state.

use vstd::prelude::*;
use crate::compress::spec_compress;
use crate::words::{count_bytes, words_bytes};

verus! {

/// The state that every digest starts from.
pub open spec fn initial_state() -> Seq<u32> {
    seq![0x67452301u32, 0xEFCDAB89u32, 0x98BADCFEu32, 0x10325476u32, 0xC3D2E1F0u32]
}

/// The state after the complete 64-byte blocks of `data`, compressed in
/// order. Bytes after the last complete block have no effect.
pub open spec fn compress_blocks(state: Seq<u32>, data: Seq<u8>) -> Seq<u32>
    decreases data.len(),
{
    if data.len() < 64 {
        state
    } else {
        compress_blocks(spec_compress(state, data.take(64)), data.skip(64))
    }
}

/// Length in bytes of the complete blocks among `len` bytes.
pub open spec fn whole_blocks(len: nat) -> nat {
    (len / 64 * 64) as nat
}

/// The 64-bit count of the bits of a message of `len` bytes: its low 64 bits
/// where the true number is larger.
pub open spec fn bit_count(len: nat) -> u64 {
    ((8 * len) % 0x1_0000_0000_0000_0000) as u64
}

/// Number of bytes of a message of `count` bits that lie after its last
/// complete block.
pub open spec fn buffered(count: u64) -> nat {
    ((count / 8) % 64) as nat
}

/// Number of zero bytes in the trailer: the least number for which marker,
/// zeros and length end on a block boundary.
pub open spec fn zero_fill(count: u64) -> nat {
    ((55 - buffered(count)) % 64) as nat
}

/// What closes a message of `count` bits: the marker byte `0x80`, the zero
/// bytes, and the count as eight little-endian bytes.
pub open spec fn trailer(count: u64) -> Seq<u8> {
    seq![0x80u8] + Seq::new(zero_fill(count), |i: int| 0u8) + count_bytes(count)
}

/// The message with its trailer.
pub open spec fn padded(msg: Seq<u8>) -> Seq<u8> {
    msg + trailer(bit_count(msg.len()))
}

/// The RIPEMD-160 digest of `msg`: 20 bytes.
pub open spec fn digest(msg: Seq<u8>) -> Seq<u8> {
    words_bytes(compress_blocks(initial_state(), padded(msg)))
}

/// Compression keeps the state at five words.
pub proof fn lemma_compress_blocks_len(state: Seq<u32>, data: Seq<u8>)
    requires
        state.len() == 5,
    ensures
        compress_blocks(state, data).len() == 5,
    decreases data.len(),
{
    if data.len() >= 64 {
        lemma_compress_blocks_len(spec_compress(state, data.take(64)), data.skip(64));
    }
}

/// Blocks are compressed strictly in order: compressing `head + tail`, where
/// `head` is made of complete blocks, is compressing `head` and then `tail`.
pub proof fn lemma_compress_blocks_split(state: Seq<u32>, head: Seq<u8>, tail: Seq<u8>)
    requires
        head.len() % 64 == 0,
    ensures
        compress_blocks(state, head + tail) == compress_blocks(
            compress_blocks(state, head),
            tail,
        ),
    decreases head.len(),
{
    if head.len() == 0 {
        assert(head + tail =~= tail);
    } else {
        let all = head + tail;
        assert(all.take(64) =~= head.take(64));
        assert(all.skip(64) =~= head.skip(64) + tail);
        lemma_compress_blocks_split(spec_compress(state, head.take(64)), head.skip(64), tail);
    }
}

/// A digest has 20 bytes.
pub proof fn lemma_digest_len(msg: Seq<u8>)
    ensures
        digest(msg).len() == 20,
{
    lemma_compress_blocks_len(initial_state(), padded(msg));
}

/// The number of buffered bytes follows the message length modulo 64, also
/// where the bit count has wrapped around.
pub proof fn lemma_buffered_advances(count: u64, len: nat)
    ensures
        buffered(((count + 8 * len) % 0x1_0000_0000_0000_0000) as u64) == (buffered(count) + len)
            % 64,
{
    let m: int = 0x1_0000_0000_0000_0000;
    let total: int = count + 8 * len;
    let q = total / m;
    let wrapped = total % m;
    assert(total == m * q + wrapped) by (nonlinear_arith)
        requires
            q == total / m,
            wrapped == total % m,
            m == 0x1_0000_0000_0000_0000,
    ;
    // Dividing by eight turns the modulus 2^64 into 2^61, a multiple of 64.
    let k: int = (count / 8) as int;
    assert(wrapped / 8 == k + len - 0x2000_0000_0000_0000 * q);
    assert((k + len - 0x2000_0000_0000_0000 * q) % 64 == (k % 64 + len) % 64);
}

/// The trailer ends the message on a block boundary, with fewer than 64
/// zero bytes.
pub proof fn lemma_trailer_len(count: u64)
    ensures
        trailer(count).len() == 9 + zero_fill(count),
        zero_fill(count) < 64,
        (buffered(count) + trailer(count).len()) % 64 == 0,
        buffered(count) + trailer(count).len() == (if buffered(count) < 56 { 64int } else {
            128int
        }),
{
}

/// A padded message is made of complete blocks.
pub proof fn lemma_padded_len(msg: Seq<u8>)
    ensures
        padded(msg).len() % 64 == 0,
        padded(msg).len() >= msg.len() + 9,
        padded(msg).len() < msg.len() + 73,
{
    let count = bit_count(msg.len());
    lemma_trailer_len(count);
    lemma_buffered_advances(0, msg.len());
    assert(buffered(count) == msg.len() % 64);
}

} // verus!

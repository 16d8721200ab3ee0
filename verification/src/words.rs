//! Little-endian coding of words: how bytes of a block make the message
//! words, and how the state and the bit count are written out as bytes.

use vstd::prelude::*;

verus! {

/// The 32-bit word whose little-endian bytes are `b0`, `b1`, `b2`, `b3`.
pub open spec fn le_word(b0: u8, b1: u8, b2: u8, b3: u8) -> u32 {
    (b0 + 0x100 * b1 + 0x1_0000 * b2 + 0x100_0000 * b3) as u32
}

/// The 16 message words of a 64-byte block: word `i` is made of the bytes
/// `4 * i` to `4 * i + 3`, least significant first.
pub open spec fn block_words(block: Seq<u8>) -> Seq<u32> {
    Seq::new(
        16,
        |i: int| le_word(block[4 * i], block[4 * i + 1], block[4 * i + 2], block[4 * i + 3]),
    )
}

/// Byte `i` of the little-endian encoding of `value`.
pub open spec fn le_byte(value: int, i: int) -> u8
    decreases i,
{
    if i <= 0 {
        (value % 0x100) as u8
    } else {
        le_byte(value / 0x100, i - 1)
    }
}

/// The four bytes of a word, least significant first.
pub open spec fn word_bytes(w: u32) -> Seq<u8> {
    Seq::new(4, |i: int| le_byte(w as int, i))
}

/// The eight bytes of a 64-bit count, least significant first.
pub open spec fn count_bytes(count: u64) -> Seq<u8> {
    Seq::new(8, |i: int| le_byte(count as int, i))
}

/// The bytes of a sequence of words: each word in turn, least significant
/// byte first.
pub open spec fn words_bytes(words: Seq<u32>) -> Seq<u8> {
    Seq::new(4 * words.len(), |i: int| word_bytes(words[i / 4])[i % 4])
}

/// Assembles a word from its four little-endian bytes.
pub fn load_word(b0: u8, b1: u8, b2: u8, b3: u8) -> (w: u32)
    ensures
        w == le_word(b0, b1, b2, b3),
{
    let w: u32 = (b0 as u32) | ((b1 as u32) << 8) | ((b2 as u32) << 16) | ((b3 as u32) << 24);
    assert(((b0 as u32) | ((b1 as u32) << 8) | ((b2 as u32) << 16) | ((b3 as u32) << 24)) == b0
        + 0x100 * b1 + 0x1_0000 * b2 + 0x100_0000 * b3) by (bit_vector);
    w
}

/// Byte `i` of a 64-bit value, counted from the least significant byte.
pub fn byte_of(value: u64, i: usize) -> (b: u8)
    requires
        i < 8,
    ensures
        b == le_byte(value as int, i as int),
{
    let shift: u64 = 8 * (i as u64);
    let b: u8 = ((value >> shift) & 0xff) as u8;
    proof {
        lemma_le_byte_shift(value, i as int);
    }
    b
}

/// Byte `i` of a value is the value shifted down by `8 * i` bits, cut to
/// eight bits.
pub proof fn lemma_le_byte_shift(value: u64, i: int)
    requires
        0 <= i < 8,
    ensures
        le_byte(value as int, i) == ((value >> ((8 * i) as u64)) & 0xff),
    decreases i,
{
    if i == 0 {
        assert(value % 0x100 == ((value >> 0u64) & 0xff)) by (bit_vector);
    } else {
        let rest: u64 = value / 0x100;
        lemma_le_byte_shift(rest, i - 1);
        let s: u64 = (8 * (i - 1)) as u64;
        let t: u64 = (8 * i) as u64;
        assert((((value / 0x100) >> s) & 0xff) == ((value >> t) & 0xff)) by (bit_vector)
            requires
                t == s + 8,
                s < 56,
        ;
    }
}

/// Decoding inverts encoding: the word made of the four bytes of `w` is `w`.
pub proof fn lemma_word_round_trip(w: u32)
    ensures
        le_word(word_bytes(w)[0], word_bytes(w)[1], word_bytes(w)[2], word_bytes(w)[3]) == w,
{
    reveal_with_fuel(le_byte, 4);
}

} // verus!

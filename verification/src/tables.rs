//! The fixed tables of the compression function: round constants, the order
//! in which the message words are read, and the rotation amounts, for the
//! left and the right line of 80 steps each.

use vstd::prelude::*;

verus! {

/// The marker byte that follows a message, and the zero bytes after it.
pub const PADDING: [u8; 64] = [
    0x80, 0, 0, 0, 0, 0, 0, 0, 0, 0, 0, 0, 0, 0, 0, 0,
    0, 0, 0, 0, 0, 0, 0, 0, 0, 0, 0, 0, 0, 0, 0, 0,
    0, 0, 0, 0, 0, 0, 0, 0, 0, 0, 0, 0, 0, 0, 0, 0,
    0, 0, 0, 0, 0, 0, 0, 0, 0, 0, 0, 0, 0, 0, 0, 0,
];

pub const K0: u32 = 0x00000000;

pub const K1: u32 = 0x5A827999;

pub const K2: u32 = 0x6ED9EBA1;

pub const K3: u32 = 0x8F1BBCDC;

pub const K4: u32 = 0xA953FD4E;

pub const KK0: u32 = 0x50A28BE6;

pub const KK1: u32 = 0x5C4DD124;

pub const KK2: u32 = 0x6D703EF3;

pub const KK3: u32 = 0x7A6D76E9;

pub const KK4: u32 = 0x00000000;

/// Added constant of each round of the left line.
pub const LEFT_ADD: [u32; 5] = [K0, K1, K2, K3, K4];

/// Added constant of each round of the right line.
pub const RIGHT_ADD: [u32; 5] = [KK0, KK1, KK2, KK3, KK4];

/// Index of the message word read at each step of the left line.
pub const LEFT_WORD: [usize; 80] = [
    0, 1, 2, 3, 4, 5, 6, 7, 8, 9, 10, 11, 12, 13, 14, 15,
    7, 4, 13, 1, 10, 6, 15, 3, 12, 0, 9, 5, 2, 14, 11, 8,
    3, 10, 14, 4, 9, 15, 8, 1, 2, 7, 0, 6, 13, 11, 5, 12,
    1, 9, 11, 10, 0, 8, 12, 4, 13, 3, 7, 15, 14, 5, 6, 2,
    4, 0, 5, 9, 7, 12, 2, 10, 14, 1, 3, 8, 11, 6, 15, 13,
];

/// Index of the message word read at each step of the right line.
pub const RIGHT_WORD: [usize; 80] = [
    5, 14, 7, 0, 9, 2, 11, 4, 13, 6, 15, 8, 1, 10, 3, 12,
    6, 11, 3, 7, 0, 13, 5, 10, 14, 15, 8, 12, 4, 9, 1, 2,
    15, 5, 1, 3, 7, 14, 6, 9, 11, 8, 12, 2, 10, 0, 4, 13,
    8, 6, 4, 1, 3, 11, 15, 0, 5, 12, 2, 13, 9, 7, 10, 14,
    12, 15, 10, 4, 1, 5, 8, 7, 6, 2, 13, 14, 0, 3, 9, 11,
];

/// Rotation amount at each step of the left line.
pub const LEFT_ROTATE: [u32; 80] = [
    11, 14, 15, 12, 5, 8, 7, 9, 11, 13, 14, 15, 6, 7, 9, 8,
    7, 6, 8, 13, 11, 9, 7, 15, 7, 12, 15, 9, 11, 7, 13, 12,
    11, 13, 6, 7, 14, 9, 13, 15, 14, 8, 13, 6, 5, 12, 7, 5,
    11, 12, 14, 15, 14, 15, 9, 8, 9, 14, 5, 6, 8, 6, 5, 12,
    9, 15, 5, 11, 6, 8, 13, 12, 5, 12, 13, 14, 11, 8, 5, 6,
];

/// Rotation amount at each step of the right line.
pub const RIGHT_ROTATE: [u32; 80] = [
    8, 9, 9, 11, 13, 15, 15, 5, 7, 7, 8, 11, 14, 14, 12, 6,
    9, 13, 15, 7, 12, 8, 9, 11, 7, 7, 12, 7, 6, 15, 13, 11,
    9, 7, 15, 11, 8, 6, 6, 14, 12, 13, 5, 14, 13, 13, 7, 5,
    15, 5, 8, 11, 14, 14, 6, 14, 6, 9, 12, 9, 12, 5, 15, 8,
    8, 5, 12, 9, 12, 5, 14, 6, 8, 13, 6, 5, 15, 13, 11, 11,
];

/// Every word index is below 16 and every rotation amount lies strictly
/// between 0 and 32, at every step of either line.
pub proof fn lemma_tables_in_range(j: int)
    requires
        0 <= j < 80,
    ensures
        LEFT_WORD@[j] < 16,
        RIGHT_WORD@[j] < 16,
        0 < LEFT_ROTATE@[j] < 32,
        0 < RIGHT_ROTATE@[j] < 32,
{
}

/// The permutation of the word indices that leads from the order of one
/// round to the order of the next.
pub open spec fn rho(i: int) -> int {
    LEFT_WORD@[16 + i] as int
}

/// How the word orders are built. The first round of the left line reads
/// the words in their own order, the first round of the right line reads
/// word `9 * i + 5` (modulo 16) at step `i`, and in both lines every later
/// round reads, step by step, `rho` of what the round before it read.
pub proof fn lemma_word_order(k: int, i: int)
    requires
        0 <= k < 5,
        0 <= i < 16,
    ensures
        LEFT_WORD@[i] == i,
        RIGHT_WORD@[i] == (9 * i + 5) % 16,
        k >= 1 ==> LEFT_WORD@[16 * k + i] == rho(LEFT_WORD@[16 * (k - 1) + i] as int),
        k >= 1 ==> RIGHT_WORD@[16 * k + i] == rho(RIGHT_WORD@[16 * (k - 1) + i] as int),
{
}

/// No round of either line reads a word twice: with the 16 steps of a round
/// and the 16 words of a block, the word order of every round is a
/// permutation of the indices 0 to 15.
pub proof fn lemma_round_reads_each_word_once(k: int, i: int, j: int)
    requires
        0 <= k < 5,
        0 <= i < j < 16,
    ensures
        LEFT_WORD@[16 * k + i] != LEFT_WORD@[16 * k + j],
        RIGHT_WORD@[16 * k + i] != RIGHT_WORD@[16 * k + j],
{
}

/// The rotation amount belongs to the round and the word: where the two
/// lines read the same word in the same round, at whatever steps, they
/// rotate by the same amount.
pub proof fn lemma_rotation_by_word(k: int, i: int, j: int)
    requires
        0 <= k < 5,
        0 <= i < 16,
        0 <= j < 16,
        LEFT_WORD@[16 * k + i] == RIGHT_WORD@[16 * k + j],
    ensures
        LEFT_ROTATE@[16 * k + i] == RIGHT_ROTATE@[16 * k + j],
{
}

/// Where the added constants come from. Those of the left line are zero and
/// the integer parts of 2^30 times the square roots of 2, 3, 5 and 7; those
/// of the right line are the integer parts of 2^30 times the cube roots of
/// 2, 3, 5 and 7, and zero.
pub proof fn lemma_constants_are_roots()
    ensures
        K0 == 0,
        K1 * K1 <= 2 * 0x1000_0000_0000_0000 < (K1 + 1) * (K1 + 1),
        K2 * K2 <= 3 * 0x1000_0000_0000_0000 < (K2 + 1) * (K2 + 1),
        K3 * K3 <= 5 * 0x1000_0000_0000_0000 < (K3 + 1) * (K3 + 1),
        K4 * K4 <= 7 * 0x1000_0000_0000_0000 < (K4 + 1) * (K4 + 1),
        KK0 * KK0 * KK0 <= 2 * 0x400_0000_0000_0000_0000_0000 < (KK0 + 1) * (KK0 + 1) * (KK0 + 1),
        KK1 * KK1 * KK1 <= 3 * 0x400_0000_0000_0000_0000_0000 < (KK1 + 1) * (KK1 + 1) * (KK1 + 1),
        KK2 * KK2 * KK2 <= 5 * 0x400_0000_0000_0000_0000_0000 < (KK2 + 1) * (KK2 + 1) * (KK2 + 1),
        KK3 * KK3 * KK3 <= 7 * 0x400_0000_0000_0000_0000_0000 < (KK3 + 1) * (KK3 + 1) * (KK3 + 1),
        KK4 == 0,
{
}

} // verus!

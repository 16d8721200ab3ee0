//! The compression function: two lines of 80 steps over the 16 words of a
//! block, joined with the incoming state.

use vstd::prelude::*;
use crate::bits::{f0, f1, f2, f3, f4, rol, spec_f, spec_rol};
use crate::tables::{LEFT_ADD, LEFT_ROTATE, LEFT_WORD, RIGHT_ADD, RIGHT_ROTATE, RIGHT_WORD};
use crate::words::{block_words, load_word};

verus! {

/// The five working registers of a line.
#[derive(Clone, Copy)]
pub struct Registers {
    pub a: u32,
    pub b: u32,
    pub c: u32,
    pub d: u32,
    pub e: u32,
}

/// Addition modulo 2^32: a sum that does not fit loses its carry.
pub open spec fn add32(x: u32, y: u32) -> u32 {
    if x + y >= 0x1_0000_0000 {
        (x + y - 0x1_0000_0000) as u32
    } else {
        (x + y) as u32
    }
}

/// `add32` is the sum reduced modulo 2^32.
pub proof fn lemma_add32_is_modular(x: u32, y: u32)
    ensures
        add32(x, y) == (x + y) % 0x1_0000_0000,
{
}

/// What one step computes from the registers `a` to `e`: the new word
/// `rol(sj, a + f(b, c, d) + w + kj) + e`, where `f` is the mixing function
/// with index `fj` and every sum is taken modulo 2^32, and `c` rotated by
/// ten bits.
pub open spec fn spec_r(
    a: u32,
    b: u32,
    c: u32,
    d: u32,
    e: u32,
    fj: int,
    kj: u32,
    sj: u32,
    w: u32,
) -> (u32, u32) {
    (add32(spec_rol(sj, add32(add32(add32(a, spec_f(fj, b, c, d)), w), kj)), e), spec_rol(10, c))
}

/// The registers after one step: `(a, b, c, d, e)` become
/// `(e, t, b, rol(10, c), d)`, where `t` is the new word of the step.
pub open spec fn spec_step(v: Registers, fj: int, kj: u32, sj: u32, w: u32) -> Registers {
    let out = spec_r(v.a, v.b, v.c, v.d, v.e, fj, kj, sj, w);
    Registers { a: v.e, b: out.0, c: v.b, d: out.1, e: v.d }
}

/// Index of the mixing function at step `j`: the rounds of the left line
/// use the functions 0 to 4 in this order, those of the right line 4 to 0.
pub open spec fn line_f(right: bool, j: int) -> int {
    if right {
        4 - j / 16
    } else {
        j / 16
    }
}

/// Added constant at step `j`.
pub open spec fn line_add(right: bool, j: int) -> u32 {
    if right {
        RIGHT_ADD@[j / 16]
    } else {
        LEFT_ADD@[j / 16]
    }
}

/// Rotation amount at step `j`.
pub open spec fn line_rotate(right: bool, j: int) -> u32 {
    if right {
        RIGHT_ROTATE@[j]
    } else {
        LEFT_ROTATE@[j]
    }
}

/// Index of the message word read at step `j`.
pub open spec fn line_word(right: bool, j: int) -> int {
    if right {
        RIGHT_WORD@[j] as int
    } else {
        LEFT_WORD@[j] as int
    }
}

/// The registers of a line after its first `n` steps, started from `start`
/// on the message words `x`.
pub open spec fn spec_line(right: bool, n: nat, start: Registers, x: Seq<u32>) -> Registers
    decreases n,
{
    if n == 0 {
        start
    } else {
        let j = n - 1;
        spec_step(
            spec_line(right, j as nat, start, x),
            line_f(right, j),
            line_add(right, j),
            line_rotate(right, j),
            x[line_word(right, j)],
        )
    }
}

/// The registers that both lines start from.
pub open spec fn start_registers(state: Seq<u32>) -> Registers {
    Registers { a: state[0], b: state[1], c: state[2], d: state[3], e: state[4] }
}

/// The state after one 64-byte block: both lines run their 80 steps from the
/// incoming state, and their results are added to it crosswise.
pub open spec fn spec_compress(state: Seq<u32>, block: Seq<u8>) -> Seq<u32> {
    let x = block_words(block);
    let left = spec_line(false, 80, start_registers(state), x);
    let right = spec_line(true, 80, start_registers(state), x);
    seq![
        add32(add32(state[1], left.c), right.d),
        add32(add32(state[2], left.d), right.e),
        add32(add32(state[3], left.e), right.a),
        add32(add32(state[4], left.a), right.b),
        add32(add32(state[0], left.b), right.c),
    ]
}

/// One step of a line: returns the new word and `c` rotated by ten bits.
/// `fj` selects the mixing function, `kj` is the added constant, `sj` the
/// rotation amount and `rj` the index of the message word in `x`. There are
/// five mixing functions, so `fj` must be below 5; `sj` must lie strictly
/// between 0 and 32, and `rj` within `x`.
pub fn r(
    a: u32,
    b: u32,
    c: u32,
    d: u32,
    e: u32,
    fj: usize,
    kj: u32,
    sj: u32,
    rj: usize,
    x: &[u32],
) -> (out: (u32, u32))
    requires
        fj < 5,
        0 < sj < 32,
        rj < x@.len(),
    ensures
        out == spec_r(a, b, c, d, e, fj as int, kj, sj, x@[rj as int]),
{
    let mixed: u32 = if fj == 0 {
        f0(b, c, d)
    } else if fj == 1 {
        f1(b, c, d)
    } else if fj == 2 {
        f2(b, c, d)
    } else if fj == 3 {
        f3(b, c, d)
    } else {
        f4(b, c, d)
    };
    let a: u32 = rol(sj, a.wrapping_add(mixed).wrapping_add(x[rj]).wrapping_add(kj)).wrapping_add(e);
    let c: u32 = rol(10, c);
    (a, c)
}

/// Runs the 80 steps of one line from the given state.
pub fn run_line(right: bool, state: &[u32; 5], x: &[u32; 16]) -> (out: Registers)
    ensures
        out == spec_line(right, 80, start_registers(state@), x@),
{
    let mut v = Registers { a: state[0], b: state[1], c: state[2], d: state[3], e: state[4] };
    let mut j: usize = 0;
    while j < 80
        invariant
            j <= 80,
            v == spec_line(right, j as nat, start_registers(state@), x@),
        decreases 80 - j,
    {
        let round: usize = j / 16;
        let (fj, kj, sj, rj): (usize, u32, u32, usize) = if right {
            (4 - round, RIGHT_ADD[round], RIGHT_ROTATE[j], RIGHT_WORD[j])
        } else {
            (round, LEFT_ADD[round], LEFT_ROTATE[j], LEFT_WORD[j])
        };
        let (t, c10): (u32, u32) = r(v.a, v.b, v.c, v.d, v.e, fj, kj, sj, rj, x);
        v = Registers { a: v.e, b: t, c: v.b, d: c10, e: v.d };
        j += 1;
    }
    v
}

/// Mixes one 64-byte block into the state: the block is read as 16
/// little-endian words, both lines run on them from the incoming state, and
/// the state is replaced by the crosswise sums. The block must have exactly
/// 64 bytes.
pub fn rmd160_transform(state: &mut [u32; 5], block: &[u8])
    requires
        block@.len() == 64,
    ensures
        final(state)@ == spec_compress(old(state)@, block@),
{
    let mut x: [u32; 16] = [0u32; 16];
    let mut i: usize = 0;
    while i < 16
        invariant
            i <= 16,
            block@.len() == 64,
            forall|k: int| 0 <= k < i ==> x@[k] == block_words(block@)[k],
        decreases 16 - i,
    {
        x[i] = load_word(block[4 * i], block[4 * i + 1], block[4 * i + 2], block[4 * i + 3]);
        i += 1;
    }
    assert(x@ =~= block_words(block@));
    let left: Registers = run_line(false, state, &x);
    let right: Registers = run_line(true, state, &x);
    let t: u32 = state[1].wrapping_add(left.c).wrapping_add(right.d);
    state[1] = state[2].wrapping_add(left.d).wrapping_add(right.e);
    state[2] = state[3].wrapping_add(left.e).wrapping_add(right.a);
    state[3] = state[4].wrapping_add(left.a).wrapping_add(right.b);
    state[4] = state[0].wrapping_add(left.b).wrapping_add(right.c);
    state[0] = t;
    assert(state@ =~= spec_compress(old(state)@, block@));
}

} // verus!

//! Bitwise primitives: left rotation and the five boolean mixing functions.

use vstd::prelude::*;

verus! {

/// Left rotation of a 32-bit word by `n` positions, for `0 < n < 32`.
pub open spec fn spec_rol(n: u32, x: u32) -> u32 {
    (x << n) | (x >> ((32 - n) as u32))
}

/// Bit `i` of `x`, counted from the least significant bit.
pub open spec fn bit(x: u32, i: u32) -> bool {
    (x >> i) & 1 == 1
}

/// First mixing function: bitwise parity of the three words.
pub open spec fn spec_f0(x: u32, y: u32, z: u32) -> u32 {
    x ^ y ^ z
}

/// Second mixing function: each bit of `x` selects between `y` and `z`.
pub open spec fn spec_f1(x: u32, y: u32, z: u32) -> u32 {
    (x & y) | (!x & z)
}

/// Third mixing function.
pub open spec fn spec_f2(x: u32, y: u32, z: u32) -> u32 {
    (x | !y) ^ z
}

/// Fourth mixing function: each bit of `z` selects between `x` and `y`.
pub open spec fn spec_f3(x: u32, y: u32, z: u32) -> u32 {
    (x & z) | (y & !z)
}

/// Fifth mixing function.
pub open spec fn spec_f4(x: u32, y: u32, z: u32) -> u32 {
    x ^ (y | !z)
}

/// The mixing function with index `j`, for `j < 5`.
pub open spec fn spec_f(j: int, x: u32, y: u32, z: u32) -> u32 {
    if j == 0 {
        spec_f0(x, y, z)
    } else if j == 1 {
        spec_f1(x, y, z)
    } else if j == 2 {
        spec_f2(x, y, z)
    } else if j == 3 {
        spec_f3(x, y, z)
    } else {
        spec_f4(x, y, z)
    }
}

/// Rotates `x` left by `n` bits. The amount `n` must lie strictly between 0
/// and 32.
pub fn rol(n: u32, x: u32) -> (out: u32)
    requires
        0 < n < 32,
    ensures
        out == spec_rol(n, x),
{
    (x << n) | (x >> (32 - n))
}

/// First mixing function: `x ^ y ^ z`.
pub fn f0(x: u32, y: u32, z: u32) -> (out: u32)
    ensures
        out == spec_f0(x, y, z),
{
    x ^ y ^ z
}

/// Second mixing function: `(x & y) | (!x & z)`.
pub fn f1(x: u32, y: u32, z: u32) -> (out: u32)
    ensures
        out == spec_f1(x, y, z),
{
    (x & y) | ((!x) & z)
}

/// Third mixing function: `(x | !y) ^ z`.
pub fn f2(x: u32, y: u32, z: u32) -> (out: u32)
    ensures
        out == spec_f2(x, y, z),
{
    (x | !y) ^ z
}

/// Fourth mixing function: `(x & z) | (y & !z)`.
pub fn f3(x: u32, y: u32, z: u32) -> (out: u32)
    ensures
        out == spec_f3(x, y, z),
{
    (x & z) | (y & !z)
}

/// Fifth mixing function: `x ^ (y | !z)`.
pub fn f4(x: u32, y: u32, z: u32) -> (out: u32)
    ensures
        out == spec_f4(x, y, z),
{
    x ^ (y | !z)
}

/// Rotation moves every bit `n` places up, and the top `n` bits wrap around
/// to the bottom: bit `i` of the result is bit `i - n` (modulo 32) of `x`.
pub proof fn lemma_rol_moves_bits(n: u32, x: u32, i: u32)
    requires
        0 < n < 32,
        i < 32,
    ensures
        bit(spec_rol(n, x), i) == bit(x, ((i + 32 - n) % 32) as u32),
{
    assert(bit(spec_rol(n, x), i) == bit(x, ((i + 32 - n) % 32) as u32)) by (bit_vector)
        requires
            0 < n < 32,
            i < 32,
    ;
}

/// Each mixing function works bit by bit: bit `i` of the result depends only
/// on bit `i` of the three arguments, by the function's truth table.
pub proof fn lemma_mix_bitwise(x: u32, y: u32, z: u32, i: u32)
    requires
        i < 32,
    ensures
        bit(spec_f0(x, y, z), i) == (bit(x, i) != (bit(y, i) != bit(z, i))),
        bit(spec_f1(x, y, z), i) == (if bit(x, i) { bit(y, i) } else { bit(z, i) }),
        bit(spec_f2(x, y, z), i) == ((bit(x, i) || !bit(y, i)) != bit(z, i)),
        bit(spec_f3(x, y, z), i) == (if bit(z, i) { bit(x, i) } else { bit(y, i) }),
        bit(spec_f4(x, y, z), i) == (bit(x, i) != (bit(y, i) || !bit(z, i))),
{
    assert({
        &&& bit(spec_f0(x, y, z), i) == (bit(x, i) != (bit(y, i) != bit(z, i)))
        &&& bit(spec_f1(x, y, z), i) == (if bit(x, i) { bit(y, i) } else { bit(z, i) })
        &&& bit(spec_f2(x, y, z), i) == ((bit(x, i) || !bit(y, i)) != bit(z, i))
        &&& bit(spec_f3(x, y, z), i) == (if bit(z, i) { bit(x, i) } else { bit(y, i) })
        &&& bit(spec_f4(x, y, z), i) == (bit(x, i) != (bit(y, i) || !bit(z, i)))
    }) by (bit_vector)
        requires
            i < 32,
    ;
}

} // verus!

use rmd160::compress::{run_line, Registers};
use rmd160::tables::{
    K0, K1, K2, K3, K4, KK0, KK1, KK2, KK3, KK4, LEFT_ADD, LEFT_ROTATE, LEFT_WORD, PADDING,
    RIGHT_ADD, RIGHT_ROTATE, RIGHT_WORD,
};
use rmd160::words::{byte_of, load_word};
use rmd160::{f0, f1, f2, f3, f4, r, rmd160_transform, rol};

const START: [u32; 5] = [0x67452301, 0xEFCDAB89, 0x98BADCFE, 0x10325476, 0xC3D2E1F0];

fn counting_block() -> [u8; 64] {
    let mut block = [0u8; 64];
    for i in 0..64 {
        block[i] = i as u8;
    }
    block
}

fn counting_words() -> [u32; 16] {
    let block = counting_block();
    let mut x = [0u32; 16];
    for i in 0..16 {
        x[i] = load_word(block[4 * i], block[4 * i + 1], block[4 * i + 2], block[4 * i + 3]);
    }
    x
}

#[test]
fn rol_wraps_the_top_bits_around() {
    assert_eq!(rol(11, 0x8000_0001), 0x0000_0c00);
    assert_eq!(rol(1, 0x8000_0000), 0x0000_0001);
    assert_eq!(rol(31, 0x0000_0003), 0x8000_0001);
    assert_eq!(rol(10, 0xffc0_0000), 0x0000_03ff);
    assert_eq!(rol(16, 0x1234_5678), 0x5678_1234);
}

#[test]
fn rol_agrees_with_rotate_left() {
    let words = [0u32, 1, 0xffff_ffff, 0x8000_0000, 0x1234_5678, 0xdead_beef];
    for n in 1..32 {
        for w in words {
            assert_eq!(rol(n, w), w.rotate_left(n));
        }
    }
}

#[test]
fn mixing_functions_on_one_triple() {
    let (x, y, z) = (0x0f0f_3355u32, 0x00ff_5a5au32, 0x1234_5678u32);
    assert_eq!(f0(x, y, z), 0x1dc4_3f77);
    assert_eq!(f1(x, y, z), 0x103f_5678);
    assert_eq!(f2(x, y, z), 0xed3b_e18d);
    assert_eq!(f3(x, y, z), 0x02cf_1a52);
    assert_eq!(f4(x, y, z), 0xe2f0_c88a);
}

#[test]
fn mixing_functions_follow_their_truth_tables() {
    // One bit per combination of the three inputs.
    let x = 0b1111_0000u32;
    let y = 0b1100_1100u32;
    let z = 0b1010_1010u32;
    assert_eq!(f0(x, y, z) & 0xff, 0b1001_0110);
    assert_eq!(f1(x, y, z) & 0xff, 0b1100_1010);
    assert_eq!(f2(x, y, z) & 0xff, 0b0101_1001);
    assert_eq!(f3(x, y, z) & 0xff, 0b1110_0100);
    assert_eq!(f4(x, y, z) & 0xff, 0b0010_1101);
}

#[test]
fn step_on_the_initial_state() {
    let x: [u32; 16] = [
        0x0000_0000, 0x0101_0101, 0x0202_0202, 0x0303_0303, 0x0404_0404, 0x0505_0505, 0x0606_0606,
        0x0707_0707, 0x0808_0808, 0x0909_0909, 0x0a0a_0a0a, 0x0b0b_0b0b, 0x0c0c_0c0c, 0x0d0d_0d0d,
        0x0e0e_0e0e, 0x0f0f_0f0f,
    ];
    let [a, b, c, d, e] = START;
    assert_eq!(r(a, b, c, d, e, 0, K0, 11, 0, &x), (0x1602_f864, 0xeb73_fa62));
    assert_eq!(r(a, b, c, d, e, 1, K1, 7, 7, &x), (0x8893_31a0, 0xeb73_fa62));
}

#[test]
fn step_wraps_every_sum() {
    let x = [0xffff_ffffu32];
    assert_eq!(
        r(0xffff_ffff, 0xffff_ffff, 0x8000_0001, 0, 0xffff_ffff, 4, K4, 9, 0, &x),
        (0xa7fa_9951, 0x0000_0600)
    );
}

#[test]
fn step_selects_the_mixing_function() {
    let x = [0u32];
    let (b, c, d) = (0x0f0f_3355u32, 0x00ff_5a5au32, 0x1234_5678u32);
    let mixed = [f0(b, c, d), f1(b, c, d), f2(b, c, d), f3(b, c, d), f4(b, c, d)];
    for fj in 0..5 {
        let (t, c10) = r(0, b, c, d, 0, fj, 0, 1, 0, &x);
        assert_eq!(t, mixed[fj].rotate_left(1));
        assert_eq!(c10, c.rotate_left(10));
    }
}

#[test]
fn lines_on_a_counting_block() {
    let x = counting_words();
    let left: Registers = run_line(false, &START, &x);
    assert_eq!(
        [left.a, left.b, left.c, left.d, left.e],
        [0x7caf_b1e0, 0x5e6b_7083, 0x73ad_a5fd, 0xdaa5_a962, 0x5ab6_4aae]
    );
    let right: Registers = run_line(true, &START, &x);
    assert_eq!(
        [right.a, right.b, right.c, right.d, right.e],
        [0x59bc_b393, 0xfb12_19fb, 0x8ec5_eff0, 0x7365_34f0, 0x2f80_645a]
    );
}

#[test]
fn transform_on_a_counting_block() {
    let mut state = START;
    rmd160_transform(&mut state, &counting_block());
    assert_eq!(state, [0xd6e0_8676, 0xa2e0_eaba, 0xc4a5_52b7, 0x3b94_adcb, 0x5476_8374]);
}

#[test]
fn transform_joins_the_lines_crosswise() {
    let x = counting_words();
    let left = run_line(false, &START, &x);
    let right = run_line(true, &START, &x);
    let mut state = START;
    rmd160_transform(&mut state, &counting_block());
    assert_eq!(state[0], START[1].wrapping_add(left.c).wrapping_add(right.d));
    assert_eq!(state[1], START[2].wrapping_add(left.d).wrapping_add(right.e));
    assert_eq!(state[2], START[3].wrapping_add(left.e).wrapping_add(right.a));
    assert_eq!(state[3], START[4].wrapping_add(left.a).wrapping_add(right.b));
    assert_eq!(state[4], START[0].wrapping_add(left.b).wrapping_add(right.c));
}

#[test]
fn transform_on_the_block_of_the_empty_message() {
    let mut state = START;
    rmd160_transform(&mut state, &PADDING);
    assert_eq!(state, [0xa585_119c, 0x54fc_e9c5, 0x9708_2861, 0x48f5_e87e, 0x318d_25b2]);
}

#[test]
fn transform_runs_block_after_block() {
    let mut state = START;
    let block = counting_block();
    rmd160_transform(&mut state, &block);
    let after_one = state;
    rmd160_transform(&mut state, &block);
    assert_ne!(state, after_one);
    let mut again = after_one;
    rmd160_transform(&mut again, &block);
    assert_eq!(state, again);
}

#[test]
fn words_are_little_endian() {
    assert_eq!(load_word(0x78, 0x56, 0x34, 0x12), 0x1234_5678);
    assert_eq!(load_word(0xff, 0, 0, 0), 0x0000_00ff);
    assert_eq!(load_word(0, 0, 0, 0x80), 0x8000_0000);
    assert_eq!(load_word(1, 2, 3, 4), u32::from_le_bytes([1, 2, 3, 4]));
}

#[test]
fn bytes_of_a_count() {
    let value: u64 = 0x0102_0304_0506_0708;
    let expected = value.to_le_bytes();
    for i in 0..8 {
        assert_eq!(byte_of(value, i), expected[i]);
    }
    assert_eq!(byte_of(0x1234, 0), 0x34);
    assert_eq!(byte_of(0x1234, 1), 0x12);
    assert_eq!(byte_of(0x1234, 2), 0);
    assert_eq!(byte_of(u64::MAX, 7), 0xff);
}

#[test]
fn round_constants() {
    assert_eq!(LEFT_ADD, [K0, K1, K2, K3, K4]);
    assert_eq!(RIGHT_ADD, [KK0, KK1, KK2, KK3, KK4]);
    assert_eq!(LEFT_ADD, [0, 0x5a82_7999, 0x6ed9_eba1, 0x8f1b_bcdc, 0xa953_fd4e]);
    assert_eq!(RIGHT_ADD, [0x50a2_8be6, 0x5c4d_d124, 0x6d70_3ef3, 0x7a6d_76e9, 0]);
}

#[test]
fn every_round_reads_each_word_once() {
    for table in [LEFT_WORD, RIGHT_WORD] {
        for round in 0..5 {
            let mut seen = [false; 16];
            for step in 0..16 {
                let index = table[16 * round + step];
                assert!(index < 16);
                assert!(!seen[index]);
                seen[index] = true;
            }
        }
    }
    for step in 0..16 {
        assert_eq!(LEFT_WORD[step], step);
    }
}

#[test]
fn rotation_amounts_are_in_range() {
    for table in [LEFT_ROTATE, RIGHT_ROTATE] {
        for step in 0..80 {
            assert!(5 <= table[step] && table[step] <= 15);
        }
    }
}

#[test]
fn padding_is_a_marker_and_zeros() {
    assert_eq!(PADDING[0], 0x80);
    for i in 1..64 {
        assert_eq!(PADDING[i], 0);
    }
}

#[test]
fn word_orders_are_built_from_two_permutations() {
    let rho = [7usize, 4, 13, 1, 10, 6, 15, 3, 12, 0, 9, 5, 2, 14, 11, 8];
    for i in 0..16 {
        assert_eq!(LEFT_WORD[i], i);
        assert_eq!(RIGHT_WORD[i], (9 * i + 5) % 16);
        assert_eq!(LEFT_WORD[16 + i], rho[i]);
    }
    for round in 1..5 {
        for i in 0..16 {
            assert_eq!(LEFT_WORD[16 * round + i], rho[LEFT_WORD[16 * (round - 1) + i]]);
            assert_eq!(RIGHT_WORD[16 * round + i], rho[RIGHT_WORD[16 * (round - 1) + i]]);
        }
    }
}

#[test]
fn both_lines_rotate_a_word_alike() {
    for round in 0..5 {
        for i in 0..16 {
            for j in 0..16 {
                if LEFT_WORD[16 * round + i] == RIGHT_WORD[16 * round + j] {
                    assert_eq!(LEFT_ROTATE[16 * round + i], RIGHT_ROTATE[16 * round + j]);
                }
            }
        }
    }
    // Word 0 in the second round.
    assert_eq!(LEFT_WORD[25], 0);
    assert_eq!(LEFT_ROTATE[25], 12);
    assert_eq!(RIGHT_WORD[20], 0);
    assert_eq!(RIGHT_ROTATE[20], 12);
}

#[test]
fn constants_are_integer_parts_of_roots() {
    let roots = [2u128, 3, 5, 7];
    let squares = [K1, K2, K3, K4];
    let cubes = [KK0, KK1, KK2, KK3];
    for i in 0..4 {
        let k = squares[i] as u128;
        assert!(k * k <= roots[i] << 60);
        assert!((k + 1) * (k + 1) > roots[i] << 60);
        let kk = cubes[i] as u128;
        assert!(kk * kk * kk <= roots[i] << 90);
        assert!((kk + 1) * (kk + 1) * (kk + 1) > roots[i] << 90);
    }
    assert_eq!(K0, 0);
    assert_eq!(KK4, 0);
}

#[test]
fn rol_moves_every_bit_up() {
    let x = 0x8421_c639u32;
    for n in 1..32u32 {
        let y = rol(n, x);
        for i in 0..32u32 {
            assert_eq!((y >> i) & 1, (x >> ((i + 32 - n) % 32)) & 1);
        }
    }
}

#[test]
fn word_survives_the_round_trip_through_bytes() {
    for w in [0u32, 1, 0x1234_5678, 0xffff_ffff, 0x8000_0000] {
        let v = w as u64;
        assert_eq!(load_word(byte_of(v, 0), byte_of(v, 1), byte_of(v, 2), byte_of(v, 3)), w);
    }
}

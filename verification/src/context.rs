//! The streaming digest context: bytes are absorbed in any chunking, and
//! finishing yields the digest of all of them.

use vstd::prelude::*;
use crate::compress::rmd160_transform;
use crate::message::{
    buffered, compress_blocks, digest, initial_state, lemma_buffered_advances, lemma_trailer_len,
    trailer,
};
use crate::stream::{
    absorb, finish, initial_view, lemma_absorb_chunks, lemma_finish_is_digest, sealed,
    ContextView,
};
use crate::tables::PADDING;
use crate::words::{byte_of, count_bytes, words_bytes};

verus! {

/// A digest computation in progress: the running state of five words, the
/// count of the bits absorbed so far, and the buffer for the bytes of a block
/// that is not complete yet. Of the buffer only the first `(count / 8) % 64`
/// bytes count.
pub struct RMDContext {
    state: [u32; 5],
    count: u64,
    buffer: [u8; 64],
    spent: bool,
}

impl View for RMDContext {
    type V = ContextView;

    closed spec fn view(&self) -> ContextView {
        ContextView {
            state: self.state@,
            count: self.count,
            pending: self.buffer@.take(buffered(self.count) as int),
            spent: self.spent,
        }
    }
}

impl RMDContext {
    /// A fresh context, which has absorbed nothing.
    pub fn new() -> (ctx: RMDContext)
        ensures
            ctx@ == initial_view(),
    {
        let ctx: RMDContext = RMDContext {
            state: [0x67452301, 0xEFCDAB89, 0x98BADCFE, 0x10325476, 0xC3D2E1F0],
            count: 0,
            buffer: [0; 64],
            spent: false,
        };
        assert(ctx.state@ =~= initial_state());
        assert(ctx.buffer@.take(0) =~= Seq::<u8>::empty());
        ctx
    }

    /// Whether the digest has been taken from this context.
    pub fn is_spent(&self) -> (spent: bool)
        ensures
            spent == self@.spent,
    {
        self.spent
    }

    /// The view of any context is well formed.
    pub proof fn lemma_view_wf(&self)
        ensures
            self@.wf(),
    {
    }
}

/// Copies `n` bytes of `src`, from index `from` on, into `buffer` at `at`.
fn copy_bytes(buffer: &mut [u8; 64], at: usize, src: &[u8], from: usize, n: usize)
    requires
        at + n <= 64,
        from + n <= src.len(),
    ensures
        final(buffer)@ == old(buffer)@.take(at as int) + src@.subrange(
            from as int,
            from + n,
        ) + old(buffer)@.skip(at + n),
{
    let mut i: usize = 0;
    while i < n
        invariant
            i <= n,
            at + n <= 64,
            from + n <= src.len(),
            buffer@ == old(buffer)@.take(at as int) + src@.subrange(from as int, from + i) + old(
                buffer,
            )@.skip(at + i),
        decreases n - i,
    {
        buffer[at + i] = src[from + i];
        i += 1;
    }
}

/// The wrapping arithmetic on the bit count is addition modulo 2^64.
proof fn lemma_count_wraps(count: u64, len: u64)
    ensures
        vstd::wrapping::u64_specs::wrapping_add(
            count,
            vstd::wrapping::u64_specs::wrapping_mul(len, 8),
        ) == (count + 8 * len) % 0x1_0000_0000_0000_0000,
{
    let m: int = 0x1_0000_0000_0000_0000;
    let bits: int = 8 * len;
    let low: int = bits % m;
    assert(bits == m * (bits / m) + low);
    assert((count + bits) % m == (count + low) % m) by (nonlinear_arith)
        requires
            bits == m * (bits / m) + low,
            m == 0x1_0000_0000_0000_0000,
    ;
}

/// Absorbs `input` into the context. The bit count advances by eight times
/// the length of `input`, modulo 2^64. Bytes first complete the block that is
/// pending, if there is one; then every further complete block is compressed
/// straight from `input`; what is left over, fewer than 64 bytes, waits in
/// the buffer. The context must not be spent.
pub fn rmd160_update(ctx: &mut RMDContext, input: &[u8])
    requires
        !old(ctx)@.spent,
    ensures
        final(ctx)@ == absorb(old(ctx)@, input@),
{
    let ghost v0 = ctx@;
    let ghost all = v0.pending + input@;
    let mut have: usize = ((ctx.count / 8) % 64) as usize;
    let inplen: usize = input.len();
    let need: usize = 64 - have;
    proof {
        lemma_count_wraps(ctx.count, inplen as u64);
        lemma_buffered_advances(ctx.count, inplen as nat);
    }
    ctx.count = ctx.count.wrapping_add((inplen as u64).wrapping_mul(8));
    let mut off: usize = 0;

    if inplen >= need {
        if have > 0 {
            copy_bytes(&mut ctx.buffer, have, input, 0, need);
            assert(ctx.buffer@ =~= all.take(64));
            rmd160_transform(&mut ctx.state, &ctx.buffer);
            off = need;
            have = 0;
            assert(all.skip(64) =~= input@.skip(off as int));
        } else {
            assert(all =~= input@.skip(0));
        }
        while inplen - off >= 64
            invariant
                off <= inplen,
                inplen == input@.len(),
                all == v0.pending + input@,
                (v0.pending.len() + off) % 64 == 0,
                compress_blocks(ctx.state@, input@.skip(off as int)) == compress_blocks(
                    v0.state,
                    all,
                ),
                ctx.count == absorb(v0, input@).count,
                ctx.spent == v0.spent,
            decreases inplen - off,
        {
            let ghost rest = input@.skip(off as int);
            assert(rest.take(64) =~= input@.subrange(off as int, off + 64));
            assert(rest.skip(64) =~= input@.skip(off + 64));
            rmd160_transform(&mut ctx.state, &input[off..off + 64]);
            off += 64;
        }
    }
    if off < inplen {
        copy_bytes(&mut ctx.buffer, have, input, off, inplen - off);
    }
    proof {
        let left: int = (inplen - off) as int;
        if old(ctx)@.pending.len() + inplen < 64 {
            assert(ctx.buffer@.take(have + left) =~= all);
            assert(all.skip(0) =~= all);
        } else {
            assert(all.skip(v0.pending.len() + off) =~= input@.skip(off as int));
            assert(ctx.buffer@.take(left) =~= input@.skip(off as int));
        }
    }
}

/// Takes the digest of everything the context has absorbed: the trailer for
/// the bit count is absorbed, marker and zeros first and the count after
/// them, and the state is written out, each word least significant byte
/// first. The context must not be spent, and is spent afterwards: it can
/// neither absorb nor be finished again.
pub fn rmd160_final(ctx: &mut RMDContext) -> (out: [u8; 20])
    requires
        !old(ctx)@.spent,
    ensures
        out@ == finish(old(ctx)@),
        final(ctx)@ == sealed(old(ctx)@),
{
    let ghost v0 = ctx@;
    let count: u64 = ctx.count;
    let mut size: [u8; 8] = [0u8; 8];
    let mut i: usize = 0;
    while i < 8
        invariant
            i <= 8,
            forall|k: int| 0 <= k < i ==> size@[k] == count_bytes(count)[k],
        decreases 8 - i,
    {
        size[i] = byte_of(count, i);
        i += 1;
    }
    assert(size@ =~= count_bytes(count));
    let mut padlen: usize = 64 - ((count / 8) % 64) as usize;
    if padlen < 1 + 8 {
        padlen += 64;
    }
    let pad: &[u8] = &PADDING[0..padlen - 8];
    proof {
        lemma_trailer_len(count);
        assert(pad@ + size@ =~= trailer(count));
        lemma_absorb_chunks(v0, pad@, size@);
    }
    rmd160_update(ctx, pad);
    rmd160_update(ctx, &size);
    let mut result: [u8; 20] = [0u8; 20];
    let mut w: usize = 0;
    while w < 5
        invariant
            w <= 5,
            forall|k: int| 0 <= k < 4 * w ==> result@[k] == words_bytes(ctx.state@)[k],
        decreases 5 - w,
    {
        let word: u32 = ctx.state[w];
        let mut b: usize = 0;
        while b < 4
            invariant
                b <= 4,
                w < 5,
                word == ctx.state@[w as int],
                forall|k: int| 0 <= k < 4 * w + b ==> result@[k] == words_bytes(ctx.state@)[k],
            decreases 4 - b,
        {
            result[4 * w + b] = byte_of(word as u64, b);
            b += 1;
        }
        w += 1;
    }
    assert(result@ =~= words_bytes(ctx.state@));
    ctx.spent = true;
    result
}

/// The RIPEMD-160 digest of `input`: a fresh context absorbs it in one piece
/// and is finished.
pub fn ripemd160(input: &[u8]) -> (out: [u8; 20])
    ensures
        out@ == digest(input@),
{
    let mut ctx: RMDContext = RMDContext::new();
    rmd160_update(&mut ctx, input);
    proof {
        lemma_finish_is_digest(input@);
    }
    rmd160_final(&mut ctx)
}

} // verus!

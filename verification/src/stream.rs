//! The model of streaming: what a context stands for, how absorbing bytes
//! changes it, what finishing yields, and the laws that tie the stream to the
//! digest of the whole message.

use vstd::prelude::*;
use crate::message::{
    bit_count, buffered, compress_blocks, digest, initial_state, lemma_buffered_advances,
    lemma_compress_blocks_len, lemma_compress_blocks_split, padded, trailer, whole_blocks,
};
use crate::words::words_bytes;

verus! {

/// What a context stands for: the state after the complete blocks absorbed so
/// far, the count of all bits absorbed (modulo 2^64), the bytes that wait for
/// their block to be completed, and whether the digest has been taken.
pub struct ContextView {
    pub state: Seq<u32>,
    pub count: u64,
    pub pending: Seq<u8>,
    pub spent: bool,
}

impl ContextView {
    /// The state has five words, and the pending bytes are as many as the
    /// count leaves after its last complete block.
    pub open spec fn wf(self) -> bool {
        &&& self.state.len() == 5
        &&& self.pending.len() == buffered(self.count)
    }
}

/// The view of a fresh context.
pub open spec fn initial_view() -> ContextView {
    ContextView { state: initial_state(), count: 0, pending: Seq::empty(), spent: false }
}

/// The view after absorbing `bytes`: they are appended to the pending bytes,
/// every block that this completes is compressed into the state, in order,
/// and what is left over stays pending.
pub open spec fn absorb(v: ContextView, bytes: Seq<u8>) -> ContextView {
    let all = v.pending + bytes;
    ContextView {
        state: compress_blocks(v.state, all),
        count: ((v.count + 8 * bytes.len()) % 0x1_0000_0000_0000_0000) as u64,
        pending: all.skip(whole_blocks(all.len()) as int),
        spent: v.spent,
    }
}

/// The view after absorbing each of `pieces` in turn.
pub open spec fn absorb_each(v: ContextView, pieces: Seq<Seq<u8>>) -> ContextView
    decreases pieces.len(),
{
    if pieces.len() == 0 {
        v
    } else {
        absorb_each(absorb(v, pieces.first()), pieces.drop_first())
    }
}

/// The digest that finishing yields: the pending bytes are closed by the
/// trailer for the count, and the state after these last blocks is written
/// out as bytes.
pub open spec fn finish(v: ContextView) -> Seq<u8> {
    words_bytes(compress_blocks(v.state, v.pending + trailer(v.count)))
}

/// The view of a context after its digest has been taken: it has absorbed
/// its own trailer, and is spent.
pub open spec fn sealed(v: ContextView) -> ContextView {
    ContextView { spent: true, ..absorb(v, trailer(v.count)) }
}

/// A fresh context is well formed.
pub proof fn lemma_initial_wf()
    ensures
        initial_view().wf(),
{
}

/// Absorbing keeps a view well formed.
pub proof fn lemma_absorb_wf(v: ContextView, bytes: Seq<u8>)
    requires
        v.wf(),
    ensures
        absorb(v, bytes).wf(),
{
    lemma_compress_blocks_len(v.state, v.pending + bytes);
    lemma_buffered_advances(v.count, bytes.len());
}

/// The count grows by eight for every byte absorbed, as long as the total
/// stays below 2^64 bits.
pub proof fn lemma_count_advances(v: ContextView, bytes: Seq<u8>)
    requires
        v.count + 8 * bytes.len() <= u64::MAX,
    ensures
        absorb(v, bytes).count == v.count + 8 * bytes.len(),
{
}

/// Absorbing nothing changes nothing.
pub proof fn lemma_absorb_nothing(v: ContextView)
    requires
        v.wf(),
    ensures
        absorb(v, Seq::empty()) == v,
{
    let all = v.pending + Seq::<u8>::empty();
    assert(all =~= v.pending);
    assert(all.skip(0) =~= v.pending);
}

/// Bytes after the last complete block have no effect on the state.
pub proof fn lemma_compress_blocks_rest(state: Seq<u32>, data: Seq<u8>)
    ensures
        compress_blocks(state, data) == compress_blocks(
            state,
            data.take(whole_blocks(data.len()) as int),
        ),
{
    let w = whole_blocks(data.len()) as int;
    assert(data =~= data.take(w) + data.skip(w));
    lemma_compress_blocks_split(state, data.take(w), data.skip(w));
}

/// Chunking does not matter: absorbing `a` and then `b` leaves a context as
/// absorbing their concatenation in one piece does.
pub proof fn lemma_absorb_chunks(v: ContextView, a: Seq<u8>, b: Seq<u8>)
    ensures
        absorb(absorb(v, a), b) == absorb(v, a + b),
{
    let first = v.pending + a;
    let w1 = whole_blocks(first.len()) as int;
    let head = first.take(w1);
    let rest = first.skip(w1);
    let second = rest + b;
    let w2 = whole_blocks(second.len()) as int;
    let whole = v.pending + (a + b);
    assert(whole =~= head + second);
    assert(first =~= head + rest);
    // The state: the blocks of `head` first, then those of `rest + b`.
    lemma_compress_blocks_split(v.state, head, second);
    lemma_compress_blocks_split(v.state, head, rest);
    // The pending bytes: what follows the last complete block of the whole.
    assert(whole_blocks(whole.len()) == w1 + w2);
    assert(whole.skip(w1 + w2) =~= second.skip(w2));
    // The count: two additions modulo 2^64 are one.
    let m: int = 0x1_0000_0000_0000_0000;
    let c1: int = (v.count + 8 * a.len()) % m;
    assert((c1 + 8 * b.len()) % m == (v.count + 8 * (a + b).len()) % m) by {
        let t: int = v.count + 8 * a.len();
        assert(t == m * (t / m) + c1);
        assert((c1 + 8 * b.len()) % m == (t + 8 * b.len()) % m) by (nonlinear_arith)
            requires
                t == m * (t / m) + c1,
                m == 0x1_0000_0000_0000_0000,
        ;
    }
}

/// Chunking invariance for any number of pieces: absorbing the pieces one
/// after the other is absorbing their concatenation at once, so the digest
/// taken afterwards is the same.
pub proof fn lemma_chunking_invariance(v: ContextView, pieces: Seq<Seq<u8>>)
    requires
        v.wf(),
    ensures
        absorb_each(v, pieces) == absorb(v, pieces.flatten()),
        finish(absorb_each(v, pieces)) == finish(absorb(v, pieces.flatten())),
    decreases pieces.len(),
{
    if pieces.len() == 0 {
        lemma_absorb_nothing(v);
    } else {
        lemma_absorb_wf(v, pieces.first());
        lemma_chunking_invariance(absorb(v, pieces.first()), pieces.drop_first());
        lemma_absorb_chunks(v, pieces.first(), pieces.drop_first().flatten());
    }
}

/// Finishing a context closes exactly what it has absorbed: from a fresh
/// context that absorbed `msg`, in one piece, the result is the digest of
/// `msg`.
pub proof fn lemma_finish_is_digest(msg: Seq<u8>)
    ensures
        finish(absorb(initial_view(), msg)) == digest(msg),
{
    let v = absorb(initial_view(), msg);
    let all = Seq::<u8>::empty() + msg;
    assert(all =~= msg);
    let w = whole_blocks(msg.len()) as int;
    let head = msg.take(w);
    let rest = msg.skip(w);
    assert(msg =~= head + rest);
    assert(padded(msg) =~= head + (rest + trailer(bit_count(msg.len()))));
    lemma_compress_blocks_split(initial_state(), head, rest + trailer(bit_count(msg.len())));
    lemma_compress_blocks_split(initial_state(), head, rest);
}

/// The same, for a message absorbed in any number of pieces.
pub proof fn lemma_stream_is_digest(pieces: Seq<Seq<u8>>)
    ensures
        finish(absorb_each(initial_view(), pieces)) == digest(pieces.flatten()),
{
    lemma_chunking_invariance(initial_view(), pieces);
    lemma_finish_is_digest(pieces.flatten());
}

/// The digest depends on nothing but the bytes of the message: two messages
/// of the same length with the same byte at every index have the same digest,
/// through fresh contexts as well as directly.
pub proof fn lemma_digest_deterministic(a: Seq<u8>, b: Seq<u8>)
    requires
        a.len() == b.len(),
        forall|i: int| 0 <= i < a.len() ==> a[i] == b[i],
    ensures
        digest(a) == digest(b),
        finish(absorb(initial_view(), a)) == finish(absorb(initial_view(), b)),
{
    assert(a =~= b);
}

} // verus!

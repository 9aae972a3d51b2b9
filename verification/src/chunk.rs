//! The 32-byte chunk discipline shared by the inbox reader and the preimage
//! oracle: a read at `offset` yields `min(32, len - offset)` bytes, clamped
//! at zero, so an offset at or past the end is an empty read, not an error.

use vstd::prelude::*;

verus! {

/// The bytes a fixed-size read at `offset` returns from `msg`.
pub open spec fn chunk_of(msg: Seq<u8>, offset: int) -> Seq<u8>
    recommends
        0 <= offset,
{
    if offset >= msg.len() {
        Seq::empty()
    } else if msg.len() - offset >= 32 {
        msg.subrange(offset, offset + 32)
    } else {
        msg.subrange(offset, msg.len() as int)
    }
}

/// The concatenation of the first `k` chunks of `msg`, read at offsets
/// `0, 32, 64, ...`.
pub open spec fn chunks_upto(msg: Seq<u8>, k: nat) -> Seq<u8>
    decreases k,
{
    if k == 0 {
        Seq::empty()
    } else {
        chunks_upto(msg, (k - 1) as nat) + chunk_of(msg, 32 * (k - 1) as int)
    }
}

/// Law: a read at or past the end of the data is empty.
pub proof fn lemma_chunk_past_end(msg: Seq<u8>, offset: int)
    requires
        offset >= msg.len(),
    ensures
        chunk_of(msg, offset) == Seq::<u8>::empty(),
{
}

/// Law: a read strictly inside the data returns exactly
/// `min(32, len - offset)` bytes, matching the source at that offset.
pub proof fn lemma_chunk_within(msg: Seq<u8>, offset: int)
    requires
        0 <= offset < msg.len(),
    ensures
        chunk_of(msg, offset).len() == (if msg.len() - offset >= 32 {
            32int
        } else {
            msg.len() - offset
        }),
        forall|i: int|
            0 <= i < chunk_of(msg, offset).len() ==> chunk_of(msg, offset)[i] == msg[offset + i],
{
}

proof fn lemma_chunks_take(msg: Seq<u8>, k: nat)
    ensures
        chunks_upto(msg, k) == (if 32 * k <= msg.len() {
            msg.take(32 * k as int)
        } else {
            msg
        }),
    decreases k,
{
    if k > 0 {
        let j = (k - 1) as nat;
        lemma_chunks_take(msg, j);
        if 32 * k <= msg.len() {
            assert(chunks_upto(msg, j) + chunk_of(msg, 32 * j as int) =~= msg.take(32 * k as int));
        } else if 32 * j <= msg.len() {
            assert(chunks_upto(msg, j) + chunk_of(msg, 32 * j as int) =~= msg);
        } else {
            assert(chunks_upto(msg, j) + chunk_of(msg, 32 * j as int) =~= msg);
        }
    }
}

/// Law: chunked reads at offsets `0, 32, 64, ...` reassemble the original
/// data exactly, once enough chunks have been read to cover it.
pub proof fn lemma_chunks_reassemble(msg: Seq<u8>, k: nat)
    requires
        32 * k >= msg.len(),
    ensures
        chunks_upto(msg, k) == msg,
{
    lemma_chunks_take(msg, k);
    if 32 * k <= msg.len() {
        assert(msg.take(32 * k as int) =~= msg);
    }
}

} // verus!

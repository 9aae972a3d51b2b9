//! The preimage oracle: serves fixed-size 32-byte chunks of an
//! arbitrary-length blob identified by its 32-byte content hash.
//!
//! The oracle is expected to be complete for the state being replayed:
//! unlike an inbox index there is no "not yet available" case, so an
//! unknown hash is always fatal, whatever the offset.

use vstd::prelude::*;

use crate::bytes::vec_subrange;
use crate::chunk::chunk_of;
use crate::escape::Escape;
use crate::frame::{mem_with, CallFrame};
use crate::messages::HostRead;
use crate::session::WasmEnv;

verus! {

/// The outcome of resolving `hash` at `offset` against `preimages`, with
/// declared hash length `hash_len` and transfer length `out_len`.
pub open spec fn spec_resolve_preimage(
    preimages: Map<Seq<u8>, Seq<u8>>,
    hash: Seq<u8>,
    hash_len: u64,
    offset: u64,
    out_len: u64,
) -> HostRead {
    if hash_len != 32 || out_len != 32 {
        HostRead::Skipped
    } else if !preimages.contains_key(hash) {
        HostRead::Fatal(Escape::MissingPreimage)
    } else if offset > u32::MAX as u64 {
        HostRead::Fatal(Escape::BadOffset { offset })
    } else {
        HostRead::Data(chunk_of(preimages[hash], offset as int))
    }
}

/// Serves `resolvePreimage`: word 0 points at the hash, word 1 declares its
/// length, word 3 is the offset, word 4 the destination pointer, word 5 the
/// declared transfer length; the byte count lands in result word 7.
pub fn resolve_preimage(env: &WasmEnv, sp: &mut CallFrame) -> (r: Result<(), Escape>)
    requires
        env.wf(),
        old(sp).words.len() >= 8,
        old(sp).words@[1] == 32 && old(sp).words@[5] == 32 ==> old(sp).words@[0] + 32 <= old(
            sp,
        ).memory.len(),
        (old(sp).words@[1] == 32 && old(sp).words@[5] == 32 && old(sp).words@[3] <= u32::MAX as u64
            && env@.preimages.contains_key(
            old(sp).memory@.subrange(old(sp).words@[0] as int, old(sp).words@[0] as int + 32),
        )) ==> old(sp).words@[4] + 32 <= old(sp).memory.len(),
    ensures
        match spec_resolve_preimage(
            env@.preimages,
            old(sp).memory@.subrange(old(sp).words@[0] as int, old(sp).words@[0] as int + 32),
            old(sp).words@[1],
            old(sp).words@[3],
            old(sp).words@[5],
        ) {
            HostRead::Skipped => r == Ok::<(), Escape>(()) && final(sp).words@ == old(
                sp,
            ).words@.update(7, 0u64) && final(sp).memory == old(sp).memory,
            HostRead::Data(c) => r == Ok::<(), Escape>(()) && final(sp).words@ == old(
                sp,
            ).words@.update(7, c.len() as u64) && final(sp).memory@ == mem_with(
                old(sp).memory@,
                old(sp).words@[4] as int,
                c,
            ),
            HostRead::Fatal(e) => r == Err::<(), Escape>(e) && *final(sp) == *old(sp),
        },
{
    let hash_ptr = sp.read_u64(0);
    let hash_len = sp.read_u64(1);
    let offset64 = sp.read_u64(3);
    let out_ptr = sp.read_u64(4);
    let out_len = sp.read_u64(5);
    if hash_len != 32 || out_len != 32 {
        sp.write_u64(7, 0);
        return Ok(());
    }
    let hash = sp.read_slice(hash_ptr as usize, 32);
    let preimage = match env.preimages.get(&hash) {
        Some(preimage) => preimage,
        None => {
            return Err(Escape::MissingPreimage);
        },
    };
    if offset64 > u32::MAX as u64 {
        return Err(Escape::BadOffset { offset: offset64 });
    }
    let offset = offset64 as usize;
    let chunk: Vec<u8> = if offset >= preimage.len() {
        Vec::new()
    } else if preimage.len() - offset >= 32 {
        vec_subrange(preimage, offset, offset + 32)
    } else {
        vec_subrange(preimage, offset, preimage.len())
    };
    proof {
        assert(chunk@ =~= chunk_of(preimage@, offset64 as int));
    }
    sp.write_slice(out_ptr as usize, &chunk);
    sp.write_u64(7, chunk.len() as u64);
    Ok(())
}

/// Law: resolving an unknown hash is always fatal with `MissingPreimage`,
/// regardless of the offset.
pub proof fn lemma_unknown_preimage_fatal(
    preimages: Map<Seq<u8>, Seq<u8>>,
    hash: Seq<u8>,
    offset: u64,
)
    requires
        !preimages.contains_key(hash),
    ensures
        spec_resolve_preimage(preimages, hash, 32, offset, 32) == HostRead::Fatal(
            Escape::MissingPreimage,
        ),
{
}

/// Law: resolving a known hash at an addressable offset returns exactly the
/// chunk of the blob at that offset; together with
/// `chunk::lemma_chunks_reassemble`, chunked reads at offsets `0, 32, 64,
/// ...` reassemble the original blob exactly.
pub proof fn lemma_known_preimage_chunk(preimages: Map<Seq<u8>, Seq<u8>>, hash: Seq<u8>, offset: u64)
    requires
        preimages.contains_key(hash),
        offset <= u32::MAX as u64,
    ensures
        spec_resolve_preimage(preimages, hash, 32, offset, 32) == HostRead::Data(
            chunk_of(preimages[hash], offset as int),
        ),
{
}

/// Law: a declared hash or transfer length other than 32 skips the
/// resolution entirely, whatever the other arguments are.
pub proof fn lemma_preimage_bad_length_skips(
    preimages: Map<Seq<u8>, Seq<u8>>,
    hash: Seq<u8>,
    hash_len: u64,
    offset: u64,
    out_len: u64,
)
    requires
        hash_len != 32 || out_len != 32,
    ensures
        spec_resolve_preimage(preimages, hash, hash_len, offset, out_len) == HostRead::Skipped,
{
}

} // verus!

//! The global state accessor: `get`/`set` over the two fixed-shape slot
//! vectors (64-bit words and 32-byte words).
//!
//! A slot index at or beyond the current vector length is a fatal escape:
//! the guest must never observe a global it was not given. A `set` of the
//! 32-byte kind with a declared length other than 32 is a non-fatal
//! malformed request: state is left untouched and the call succeeds.

use vstd::prelude::*;

use crate::bytes::vec_subrange;
use crate::escape::Escape;
use crate::frame::{mem_with, CallFrame};
use crate::session::{SessionView, WasmEnv};

verus! {

/// Reading 64-bit slot `slot`: the slot's value, or the fatal escape.
pub open spec fn spec_get_global_u64(globals: Seq<u64>, slot: int) -> Result<u64, Escape> {
    if 0 <= slot < globals.len() {
        Ok(globals[slot])
    } else {
        Err(Escape::GlobalOutOfBounds)
    }
}

/// Writing 64-bit slot `slot`: the updated vector, or the fatal escape.
pub open spec fn spec_set_global_u64(globals: Seq<u64>, slot: int, v: u64) -> Result<
    Seq<u64>,
    Escape,
> {
    if 0 <= slot < globals.len() {
        Ok(globals.update(slot, v))
    } else {
        Err(Escape::GlobalOutOfBounds)
    }
}

/// Reading 32-byte slot `slot`: the slot's bytes, or the fatal escape.
pub open spec fn spec_get_global_bytes32(globals: Seq<Seq<u8>>, slot: int) -> Result<
    Seq<u8>,
    Escape,
> {
    if 0 <= slot < globals.len() {
        Ok(globals[slot])
    } else {
        Err(Escape::GlobalOutOfBounds)
    }
}

/// Writing 32-byte slot `slot`: the updated vector, or the fatal escape.
pub open spec fn spec_set_global_bytes32(globals: Seq<Seq<u8>>, slot: int, v: Seq<u8>) -> Result<
    Seq<Seq<u8>>,
    Escape,
> {
    if 0 <= slot < globals.len() {
        Ok(globals.update(slot, v))
    } else {
        Err(Escape::GlobalOutOfBounds)
    }
}

/// Serves `getGlobalStateU64`: word 0 names the slot; on success the slot's
/// value lands in result word 1.
pub fn get_global_state_u64(env: &WasmEnv, sp: &mut CallFrame) -> (r: Result<(), Escape>)
    requires
        old(sp).words.len() >= 2,
    ensures
        final(sp).memory == old(sp).memory,
        ({
            let slot = old(sp).words@[0] as int;
            match spec_get_global_u64(env@.small_globals, slot) {
                Ok(v) => r == Ok::<(), Escape>(()) && final(sp).words@ == old(
                    sp,
                ).words@.update(1, v),
                Err(e) => r == Err::<(), Escape>(e) && final(sp).words == old(sp).words,
            }
        }),
{
    let slot = sp.read_u64(0);
    if slot < env.small_globals.len() as u64 {
        let v = env.small_globals[slot as usize];
        sp.write_u64(1, v);
        Ok(())
    } else {
        Err(Escape::GlobalOutOfBounds)
    }
}

/// Serves `setGlobalStateU64`: word 0 names the slot, word 1 carries the
/// value; on success the slot is overwritten in place.
pub fn set_global_state_u64(env: &mut WasmEnv, sp: &CallFrame) -> (r: Result<(), Escape>)
    requires
        old(env).wf(),
        sp.words.len() >= 2,
    ensures
        final(env).wf(),
        ({
            let slot = sp.words@[0] as int;
            let v = sp.words@[1];
            match spec_set_global_u64(old(env)@.small_globals, slot, v) {
                Ok(g) => r == Ok::<(), Escape>(()) && final(env)@ == (SessionView {
                    small_globals: g,
                    ..old(env)@
                }),
                Err(e) => r == Err::<(), Escape>(e) && final(env)@ == old(env)@,
            }
        }),
{
    let slot = sp.read_u64(0);
    if slot < env.small_globals.len() as u64 {
        let v = sp.read_u64(1);
        env.small_globals.set(slot as usize, v);
        Ok(())
    } else {
        Err(Escape::GlobalOutOfBounds)
    }
}

/// Serves `getGlobalStateBytes32`: word 0 names the slot, word 1 the
/// destination pointer, word 2 the destination length. An undersized
/// destination receives only its declared length; on success the slot's
/// bytes land in guest memory at the destination.
pub fn get_global_state_bytes32(env: &WasmEnv, sp: &mut CallFrame) -> (r: Result<(), Escape>)
    requires
        env.wf(),
        old(sp).words.len() >= 3,
        (old(sp).words@[0] as int) < env.large_globals.len() ==> old(sp).words@[1] + (if old(
            sp,
        ).words@[2] < 32 {
            old(sp).words@[2] as int
        } else {
            32
        }) <= old(sp).memory.len(),
    ensures
        final(sp).words == old(sp).words,
        ({
            let slot = old(sp).words@[0] as int;
            let out_ptr = old(sp).words@[1] as int;
            let out_len = if old(sp).words@[2] < 32 {
                old(sp).words@[2] as int
            } else {
                32
            };
            match spec_get_global_bytes32(env@.large_globals, slot) {
                Ok(g) => r == Ok::<(), Escape>(()) && final(sp).memory@ == mem_with(
                    old(sp).memory@,
                    out_ptr,
                    g.subrange(0, out_len),
                ),
                Err(e) => r == Err::<(), Escape>(e) && final(sp).memory == old(sp).memory,
            }
        }),
{
    let slot = sp.read_u64(0);
    let out_ptr = sp.read_u64(1);
    let out_len_req = sp.read_u64(2);
    let out_len: usize = if out_len_req < 32 {
        out_len_req as usize
    } else {
        32
    };
    if slot < env.large_globals.len() as u64 {
        let chunk = vec_subrange(&env.large_globals[slot as usize], 0, out_len);
        sp.write_slice(out_ptr as usize, &chunk);
        Ok(())
    } else {
        Err(Escape::GlobalOutOfBounds)
    }
}

/// Serves `setGlobalStateBytes32`: word 0 names the slot, word 1 the source
/// pointer, word 2 the source length. A declared length other than 32 is a
/// non-fatal malformed request: nothing changes and the call succeeds.
pub fn set_global_state_bytes32(env: &mut WasmEnv, sp: &CallFrame) -> (r: Result<(), Escape>)
    requires
        old(env).wf(),
        sp.words.len() >= 3,
        sp.words@[2] == 32 ==> sp.words@[1] + 32 <= sp.memory.len(),
    ensures
        final(env).wf(),
        ({
            let slot = sp.words@[0] as int;
            let src_ptr = sp.words@[1] as int;
            let src_len = sp.words@[2];
            if src_len != 32 {
                r == Ok::<(), Escape>(()) && final(env)@ == old(env)@
            } else {
                let v = sp.memory@.subrange(src_ptr, src_ptr + 32);
                match spec_set_global_bytes32(old(env)@.large_globals, slot, v) {
                    Ok(g) => r == Ok::<(), Escape>(()) && final(env)@ == (SessionView {
                        large_globals: g,
                        ..old(env)@
                    }),
                    Err(e) => r == Err::<(), Escape>(e) && final(env)@ == old(env)@,
                }
            }
        }),
{
    let slot = sp.read_u64(0);
    let src_ptr = sp.read_u64(1);
    let src_len = sp.read_u64(2);
    if src_len != 32 {
        return Ok(());
    }
    let value = sp.read_slice(src_ptr as usize, 32);
    if slot < env.large_globals.len() as u64 {
        env.large_globals.set(slot as usize, value);
        proof {
            assert(env.large_globals.deep_view() =~~= old(env).large_globals.deep_view().update(
                slot as int,
                sp.memory@.subrange(src_ptr as int, src_ptr as int + 32),
            ));
        }
        Ok(())
    } else {
        Err(Escape::GlobalOutOfBounds)
    }
}

/// Law: for every valid slot, `set` followed by `get` on the same 64-bit
/// slot returns exactly the value written.
pub proof fn lemma_small_global_round_trip(globals: Seq<u64>, slot: int, v: u64)
    requires
        0 <= slot < globals.len(),
    ensures
        spec_set_global_u64(globals, slot, v) is Ok,
        spec_get_global_u64(spec_set_global_u64(globals, slot, v).unwrap(), slot) == Ok::<
            u64,
            Escape,
        >(v),
{
}

/// Law: for every valid slot, `set` followed by `get` on the same 32-byte
/// slot returns exactly the bytes written.
pub proof fn lemma_large_global_round_trip(globals: Seq<Seq<u8>>, slot: int, v: Seq<u8>)
    requires
        0 <= slot < globals.len(),
    ensures
        spec_set_global_bytes32(globals, slot, v) is Ok,
        spec_get_global_bytes32(spec_set_global_bytes32(globals, slot, v).unwrap(), slot) == Ok::<
            Seq<u8>,
            Escape,
        >(v),
{
}

/// Law: `get`/`set` on a slot at or beyond the vector length always fails
/// fatally with `GlobalOutOfBounds`, for both slot kinds; the accessors'
/// contracts add that the failing call leaves frame and session unchanged.
pub proof fn lemma_global_out_of_bounds_fatal(
    small: Seq<u64>,
    large: Seq<Seq<u8>>,
    small_slot: int,
    large_slot: int,
    v: u64,
    w: Seq<u8>,
)
    requires
        small_slot >= small.len(),
        large_slot >= large.len(),
    ensures
        spec_get_global_u64(small, small_slot) == Err::<u64, Escape>(Escape::GlobalOutOfBounds),
        spec_set_global_u64(small, small_slot, v) == Err::<Seq<u64>, Escape>(
            Escape::GlobalOutOfBounds,
        ),
        spec_get_global_bytes32(large, large_slot) == Err::<Seq<u8>, Escape>(
            Escape::GlobalOutOfBounds,
        ),
        spec_set_global_bytes32(large, large_slot, w) == Err::<Seq<Seq<u8>>, Escape>(
            Escape::GlobalOutOfBounds,
        ),
{
}

} // verus!

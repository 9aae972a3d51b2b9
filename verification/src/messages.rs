//! The inbox reader: serves fixed-size 32-byte chunks of a numbered message
//! from either inbox.
//!
//! The order of the checks is load-bearing: the message is resolved first,
//! and a missing index is classified against the horizon before anything
//! else can fail; only then are the destination pointer and the offset
//! examined.

use vstd::prelude::*;

use crate::bytes::vec_subrange;
use crate::chunk::chunk_of;
use crate::escape::Escape;
use crate::frame::{mem_with, CallFrame};
use crate::inbox::Inbox;
use crate::session::WasmEnv;

verus! {

/// What one fixed-size read does: nothing (malformed request), a fatal
/// escape, or a chunk of data handed to the guest.
pub ghost enum HostRead {
    /// The declared transfer length was not 32: zero bytes are reported and
    /// the call succeeds with no other effect.
    Skipped,
    /// These bytes are written to the destination, and their count to the
    /// result word.
    Data(Seq<u8>),
    /// The call aborts the session with this escape.
    Fatal(Escape),
}

/// The outcome of reading `msg_num` at `offset` from `inbox`, with
/// destination `out_ptr`, declared length `out_len`, and `mem_size` bytes of
/// guest memory.
pub open spec fn spec_inbox_read(
    inbox: Map<u64, Seq<u8>>,
    first_too_far: u64,
    msg_num: u64,
    offset: u64,
    out_ptr: u64,
    out_len: u64,
    mem_size: int,
) -> HostRead {
    if out_len != 32 {
        HostRead::Skipped
    } else if !inbox.contains_key(msg_num) {
        if msg_num < first_too_far {
            HostRead::Fatal(Escape::MissingMessage { msg_num, first_too_far })
        } else {
            HostRead::Fatal(Escape::MessageTooFar { msg_num, first_too_far })
        }
    } else if out_ptr + 32 > mem_size {
        HostRead::Fatal(Escape::UnknownMessageType)
    } else if offset > u32::MAX as u64 {
        HostRead::Fatal(Escape::BadOffset { offset })
    } else {
        HostRead::Data(chunk_of(inbox[msg_num], offset as int))
    }
}

/// The shared reader. Word 0 is the message index, word 1 the offset,
/// word 2 the destination pointer, word 3 the declared length; the byte
/// count lands in result word 5.
fn inbox_message_impl(inbox: &Inbox, first_too_far: u64, sp: &mut CallFrame) -> (r: Result<
    (),
    Escape,
>)
    requires
        inbox.wf(),
        old(sp).words.len() >= 6,
    ensures
        match spec_inbox_read(
            inbox@,
            first_too_far,
            old(sp).words@[0],
            old(sp).words@[1],
            old(sp).words@[2],
            old(sp).words@[3],
            old(sp).memory.len() as int,
        ) {
            HostRead::Skipped => r == Ok::<(), Escape>(()) && final(sp).words@ == old(
                sp,
            ).words@.update(5, 0u64) && final(sp).memory == old(sp).memory,
            HostRead::Data(c) => r == Ok::<(), Escape>(()) && final(sp).words@ == old(
                sp,
            ).words@.update(5, c.len() as u64) && final(sp).memory@ == mem_with(
                old(sp).memory@,
                old(sp).words@[2] as int,
                c,
            ),
            HostRead::Fatal(e) => r == Err::<(), Escape>(e) && *final(sp) == *old(sp),
        },
{
    let msg_num = sp.read_u64(0);
    let offset64 = sp.read_u64(1);
    let out_ptr = sp.read_u64(2);
    let out_len = sp.read_u64(3);
    if out_len != 32 {
        sp.write_u64(5, 0);
        return Ok(());
    }
    let message = match inbox.get(msg_num) {
        Some(message) => message,
        None => {
            return if msg_num < first_too_far {
                Err(Escape::MissingMessage { msg_num, first_too_far })
            } else {
                Err(Escape::MessageTooFar { msg_num, first_too_far })
            };
        },
    };
    let mem_size = sp.memory_size();
    if !(out_ptr <= mem_size && mem_size - out_ptr >= 32) {
        return Err(Escape::UnknownMessageType);
    }
    if offset64 > u32::MAX as u64 {
        return Err(Escape::BadOffset { offset: offset64 });
    }
    let offset = offset64 as usize;
    let chunk: Vec<u8> = if offset >= message.len() {
        Vec::new()
    } else if message.len() - offset >= 32 {
        vec_subrange(message, offset, offset + 32)
    } else {
        vec_subrange(message, offset, message.len())
    };
    proof {
        assert(chunk@ =~= chunk_of(message@, offset64 as int));
    }
    sp.write_slice(out_ptr as usize, &chunk);
    sp.write_u64(5, chunk.len() as u64);
    Ok(())
}

/// Serves `readInboxMessage` against the sequencer inbox.
pub fn read_inbox_message(env: &WasmEnv, sp: &mut CallFrame) -> (r: Result<(), Escape>)
    requires
        env.wf(),
        old(sp).words.len() >= 6,
    ensures
        match spec_inbox_read(
            env@.sequencer_messages,
            env@.first_too_far,
            old(sp).words@[0],
            old(sp).words@[1],
            old(sp).words@[2],
            old(sp).words@[3],
            old(sp).memory.len() as int,
        ) {
            HostRead::Skipped => r == Ok::<(), Escape>(()) && final(sp).words@ == old(
                sp,
            ).words@.update(5, 0u64) && final(sp).memory == old(sp).memory,
            HostRead::Data(c) => r == Ok::<(), Escape>(()) && final(sp).words@ == old(
                sp,
            ).words@.update(5, c.len() as u64) && final(sp).memory@ == mem_with(
                old(sp).memory@,
                old(sp).words@[2] as int,
                c,
            ),
            HostRead::Fatal(e) => r == Err::<(), Escape>(e) && *final(sp) == *old(sp),
        },
{
    inbox_message_impl(&env.sequencer_messages, env.first_too_far, sp)
}

/// Serves `readDelayedInboxMessage` against the delayed inbox.
pub fn read_delayed_inbox_message(env: &WasmEnv, sp: &mut CallFrame) -> (r: Result<(), Escape>)
    requires
        env.wf(),
        old(sp).words.len() >= 6,
    ensures
        match spec_inbox_read(
            env@.delayed_messages,
            env@.first_too_far,
            old(sp).words@[0],
            old(sp).words@[1],
            old(sp).words@[2],
            old(sp).words@[3],
            old(sp).memory.len() as int,
        ) {
            HostRead::Skipped => r == Ok::<(), Escape>(()) && final(sp).words@ == old(
                sp,
            ).words@.update(5, 0u64) && final(sp).memory == old(sp).memory,
            HostRead::Data(c) => r == Ok::<(), Escape>(()) && final(sp).words@ == old(
                sp,
            ).words@.update(5, c.len() as u64) && final(sp).memory@ == mem_with(
                old(sp).memory@,
                old(sp).words@[2] as int,
                c,
            ),
            HostRead::Fatal(e) => r == Err::<(), Escape>(e) && *final(sp) == *old(sp),
        },
{
    inbox_message_impl(&env.delayed_messages, env.first_too_far, sp)
}

/// Law: for a message present in the inbox, a well-formed read with an
/// offset at or past the message's end yields a zero-length result with no
/// error, and one with an offset inside the message yields exactly the
/// chunk of the source at that offset.
pub proof fn lemma_inbox_read_offset(
    inbox: Map<u64, Seq<u8>>,
    first_too_far: u64,
    msg_num: u64,
    offset: u64,
    out_ptr: u64,
    mem_size: int,
)
    requires
        inbox.contains_key(msg_num),
        out_ptr + 32 <= mem_size,
        offset <= u32::MAX as u64,
    ensures
        offset >= inbox[msg_num].len() ==> spec_inbox_read(
            inbox,
            first_too_far,
            msg_num,
            offset,
            out_ptr,
            32,
            mem_size,
        ) == HostRead::Data(Seq::<u8>::empty()),
        offset < inbox[msg_num].len() ==> spec_inbox_read(
            inbox,
            first_too_far,
            msg_num,
            offset,
            out_ptr,
            32,
            mem_size,
        ) == HostRead::Data(chunk_of(inbox[msg_num], offset as int)),
{
}

/// Law: a missing index below the horizon is fatal with `MissingMessage`; a
/// missing index at or beyond it is fatal with `MessageTooFar`; the two are
/// never conflated.
pub proof fn lemma_missing_vs_too_far(
    inbox: Map<u64, Seq<u8>>,
    first_too_far: u64,
    msg_num: u64,
    offset: u64,
    out_ptr: u64,
    mem_size: int,
)
    requires
        !inbox.contains_key(msg_num),
    ensures
        msg_num < first_too_far ==> spec_inbox_read(
            inbox,
            first_too_far,
            msg_num,
            offset,
            out_ptr,
            32,
            mem_size,
        ) == HostRead::Fatal(Escape::MissingMessage { msg_num, first_too_far }),
        msg_num >= first_too_far ==> spec_inbox_read(
            inbox,
            first_too_far,
            msg_num,
            offset,
            out_ptr,
            32,
            mem_size,
        ) == HostRead::Fatal(Escape::MessageTooFar { msg_num, first_too_far }),
{
}

/// Law: a declared transfer length other than 32 skips the read entirely,
/// whatever the other arguments are.
pub proof fn lemma_inbox_bad_length_skips(
    inbox: Map<u64, Seq<u8>>,
    first_too_far: u64,
    msg_num: u64,
    offset: u64,
    out_ptr: u64,
    out_len: u64,
    mem_size: int,
)
    requires
        out_len != 32,
    ensures
        spec_inbox_read(inbox, first_too_far, msg_num, offset, out_ptr, out_len, mem_size)
            == HostRead::Skipped,
{
}

} // verus!

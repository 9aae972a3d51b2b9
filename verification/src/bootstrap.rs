//! The bootstrap protocol's data path: decoding the controller's flat,
//! order-dependent wire format into a validated intermediate structure, and
//! installing that structure into a fresh session.
//!
//! The wire format, in this exact order: inbox position (u64), position
//! within message (u64), last block hash (32 bytes), last send root (32
//! bytes), delayed position (u64), then two message streams — repeated
//! `(u8 continuation flag, [if 1] u64 length, bytes)` terminated by flag 0 —
//! first the sequencer stream, then the delayed stream. All integers are
//! big-endian. The embedding program owns the socket; it reads bytes, asks
//! `bootstrap_needed` how many more the format wants, and hands the complete
//! buffer to `decode_bootstrap`.

use vstd::prelude::*;

use crate::bytes::{be_u64_of, read_be_u64, vec_subrange};
use crate::escape::Escape;
use crate::session::{SessionView, WasmEnv};

verus! {

/// What a prefix of one message stream denotes: a finished stream, a stream
/// that needs more bytes, or a malformed continuation flag.
pub ghost enum MsgsStatus {
    /// The stream is complete: these messages, in this many bytes.
    Done { msgs: Seq<Seq<u8>>, used: int },
    /// At least this many further bytes are needed.
    Incomplete { missing: int },
    /// A continuation flag other than 0 or 1.
    Malformed,
}

/// What a prefix of the whole bootstrap blob denotes.
pub ghost enum WireStatus {
    /// The blob is complete: this image, in this many bytes.
    Complete { image: BootstrapImage, used: int },
    /// At least this many further bytes are needed.
    Incomplete { missing: int },
    /// A continuation flag other than 0 or 1.
    Malformed,
}

/// The decoded initial state of a session, before it is installed.
#[verifier::ext_equal]
pub ghost struct BootstrapImage {
    pub inbox_position: u64,
    pub position_within_message: u64,
    pub last_block_hash: Seq<u8>,
    pub last_send_root: Seq<u8>,
    pub delayed_position: u64,
    pub sequencer: Seq<Seq<u8>>,
    pub delayed: Seq<Seq<u8>>,
}

/// The meaning of a prefix of one message stream.
pub open spec fn msgs_status(s: Seq<u8>) -> MsgsStatus
    decreases s.len(),
{
    if s.len() == 0 {
        MsgsStatus::Incomplete { missing: 1 }
    } else if s[0] == 0 {
        MsgsStatus::Done { msgs: Seq::empty(), used: 1 }
    } else if s[0] != 1 {
        MsgsStatus::Malformed
    } else if s.len() < 9 {
        MsgsStatus::Incomplete { missing: 9 - s.len() }
    } else {
        let n = be_u64_of(s.subrange(1, 9)) as int;
        if s.len() < 9 + n {
            MsgsStatus::Incomplete { missing: 9 + n - s.len() }
        } else {
            match msgs_status(s.skip(9 + n)) {
                MsgsStatus::Done { msgs, used } => MsgsStatus::Done {
                    msgs: seq![s.subrange(9, 9 + n)] + msgs,
                    used: 9 + n + used,
                },
                MsgsStatus::Incomplete { missing } => MsgsStatus::Incomplete { missing },
                MsgsStatus::Malformed => MsgsStatus::Malformed,
            }
        }
    }
}

/// The meaning of a prefix of the whole bootstrap blob.
pub open spec fn wire_status(s: Seq<u8>) -> WireStatus {
    if s.len() < 88 {
        WireStatus::Incomplete { missing: 88 - s.len() }
    } else {
        match msgs_status(s.skip(88)) {
            MsgsStatus::Done { msgs: sequencer, used: c1 } => match msgs_status(s.skip(88 + c1)) {
                MsgsStatus::Done { msgs: delayed, used: c2 } => WireStatus::Complete {
                    image: BootstrapImage {
                        inbox_position: be_u64_of(s.subrange(0, 8)),
                        position_within_message: be_u64_of(s.subrange(8, 16)),
                        last_block_hash: s.subrange(16, 48),
                        last_send_root: s.subrange(48, 80),
                        delayed_position: be_u64_of(s.subrange(80, 88)),
                        sequencer,
                        delayed,
                    },
                    used: 88 + c1 + c2,
                },
                MsgsStatus::Incomplete { missing } => WireStatus::Incomplete { missing },
                MsgsStatus::Malformed => WireStatus::Malformed,
            },
            MsgsStatus::Incomplete { missing } => WireStatus::Incomplete { missing },
            MsgsStatus::Malformed => WireStatus::Malformed,
        }
    }
}

/// The decoded initial state of a session, as exchanged with the embedding
/// program.
#[derive(Debug, PartialEq, Eq)]
pub struct BootstrapInit {
    pub inbox_position: u64,
    pub position_within_message: u64,
    pub last_block_hash: Vec<u8>,
    pub last_send_root: Vec<u8>,
    pub delayed_position: u64,
    pub sequencer: Vec<Vec<u8>>,
    pub delayed: Vec<Vec<u8>>,
}

impl View for BootstrapInit {
    type V = BootstrapImage;

    open spec fn view(&self) -> BootstrapImage {
        BootstrapImage {
            inbox_position: self.inbox_position,
            position_within_message: self.position_within_message,
            last_block_hash: self.last_block_hash@,
            last_send_root: self.last_send_root@,
            delayed_position: self.delayed_position,
            sequencer: self.sequencer.deep_view(),
            delayed: self.delayed.deep_view(),
        }
    }
}

enum StreamRead {
    Msgs { msgs: Vec<Vec<u8>>, end: usize },
    Need { missing: u64 },
    Malformed,
}

fn read_msg_stream(data: &Vec<u8>, pos: usize) -> (r: StreamRead)
    requires
        pos <= data.len(),
    ensures
        ({
            let st = msgs_status(data@.skip(pos as int));
            match r {
                StreamRead::Msgs { msgs, end } => st == (MsgsStatus::Done {
                    msgs: msgs.deep_view(),
                    used: end - pos,
                }) && pos < end <= data.len(),
                StreamRead::Need { missing } => missing > 0 && st == (MsgsStatus::Incomplete {
                    missing: missing as int,
                }),
                StreamRead::Malformed => st == MsgsStatus::Malformed,
            }
        }),
    decreases data.len() - pos,
{
    let ghost s = data@.skip(pos as int);
    let tail_len = data.len() - pos;
    if tail_len == 0 {
        return StreamRead::Need { missing: 1 };
    }
    let flag = data[pos];
    proof {
        assert(s[0] == data@[pos as int]);
    }
    if flag == 0 {
        let msgs: Vec<Vec<u8>> = Vec::new();
        proof {
            assert(msgs.deep_view() =~= Seq::<Seq<u8>>::empty());
        }
        return StreamRead::Msgs { msgs, end: pos + 1 };
    }
    if flag != 1 {
        return StreamRead::Malformed;
    }
    if tail_len < 9 {
        return StreamRead::Need { missing: (9 - tail_len) as u64 };
    }
    let n64 = read_be_u64(data, pos + 1);
    proof {
        assert(data@.subrange(pos as int + 1, pos as int + 9) =~= s.subrange(1, 9));
    }
    if n64 > (tail_len - 9) as u64 {
        return StreamRead::Need { missing: n64 - (tail_len - 9) as u64 };
    }
    let n = n64 as usize;
    let msg = vec_subrange(data, pos + 9, pos + 9 + n);
    proof {
        assert(msg@ =~= s.subrange(9, 9 + n as int));
        assert(data@.skip(pos as int + 9 + n as int) =~= s.skip(9 + n as int));
    }
    match read_msg_stream(data, pos + 9 + n) {
        StreamRead::Msgs { msgs, end } => {
            let ghost rest = msgs.deep_view();
            let mut msgs = msgs;
            msgs.insert(0, msg);
            proof {
                assert(msgs.deep_view() =~~= seq![msg@] + rest);
            }
            StreamRead::Msgs { msgs, end }
        },
        StreamRead::Need { missing } => StreamRead::Need { missing },
        StreamRead::Malformed => StreamRead::Malformed,
    }
}

/// How many further bytes the wire format wants before `decode_bootstrap`
/// can succeed: zero once the buffer holds a complete blob, and zero for a
/// malformed buffer, which no further bytes can repair.
pub fn bootstrap_needed(data: &Vec<u8>) -> (r: u64)
    ensures
        match wire_status(data@) {
            WireStatus::Complete { .. } => r == 0,
            WireStatus::Incomplete { missing } => r == missing && r > 0,
            WireStatus::Malformed => r == 0,
        },
{
    if data.len() < 88 {
        return (88 - data.len()) as u64;
    }
    match read_msg_stream(data, 88) {
        StreamRead::Need { missing } => missing,
        StreamRead::Malformed => 0,
        StreamRead::Msgs { msgs: _, end } => match read_msg_stream(data, end) {
            StreamRead::Need { missing } => missing,
            StreamRead::Malformed => 0,
            StreamRead::Msgs { .. } => 0,
        },
    }
}

/// Decodes a complete bootstrap blob into the validated intermediate
/// structure. Anything short of a complete, well-formed blob — truncation
/// anywhere, or a continuation flag other than 0 or 1 — is rejected whole as
/// a bootstrap I/O failure, so no partial state can leak out of a bad
/// stream. Bytes after the blob are ignored: the stream stays open.
pub fn decode_bootstrap(data: &Vec<u8>) -> (r: Result<BootstrapInit, Escape>)
    ensures
        match r {
            Ok(init) => wire_status(data@) matches WireStatus::Complete { image, .. } && init@
                == image,
            Err(e) => e == Escape::BootstrapIOFailure && !(wire_status(data@) is Complete),
        },
{
    if data.len() < 88 {
        return Err(Escape::BootstrapIOFailure);
    }
    let inbox_position = read_be_u64(data, 0);
    let position_within_message = read_be_u64(data, 8);
    let last_block_hash = vec_subrange(data, 16, 48);
    let last_send_root = vec_subrange(data, 48, 80);
    let delayed_position = read_be_u64(data, 80);
    let (sequencer, seq_end) = match read_msg_stream(data, 88) {
        StreamRead::Msgs { msgs, end } => (msgs, end),
        _ => {
            return Err(Escape::BootstrapIOFailure);
        },
    };
    let delayed = match read_msg_stream(data, seq_end) {
        StreamRead::Msgs { msgs, end: _ } => msgs,
        _ => {
            return Err(Escape::BootstrapIOFailure);
        },
    };
    let init = BootstrapInit {
        inbox_position,
        position_within_message,
        last_block_hash,
        last_send_root,
        delayed_position,
        sequencer,
        delayed,
    };
    proof {
        let image = (match wire_status(data@) {
            WireStatus::Complete { image, .. } => image,
            _ => arbitrary(),
        });
        assert(init@ =~~= image);
    }
    Ok(init)
}

/// The inbox contents that ingesting `msgs` at base index `base` produces:
/// one contiguous key per message, starting at `base`.
pub open spec fn msgs_map(base: u64, msgs: Seq<Seq<u8>>) -> Map<u64, Seq<u8>> {
    Map::new(|k: u64| base <= k < base + msgs.len(), |k: u64| msgs[k - base])
}

/// The session state after bootstrap installs `image` over `pre`: the
/// globals and both inboxes come from the controller's input alone; the
/// preimage store and the horizon survive from the process image; the
/// session stops forking.
pub open spec fn bootstrap_transition(pre: SessionView, image: BootstrapImage) -> SessionView {
    SessionView {
        forks: false,
        small_globals: seq![image.inbox_position, image.position_within_message],
        large_globals: seq![image.last_block_hash, image.last_send_root],
        sequencer_messages: msgs_map(image.inbox_position, image.sequencer),
        delayed_messages: msgs_map(image.delayed_position, image.delayed),
        preimages: pre.preimages,
        first_too_far: pre.first_too_far,
    }
}

spec fn vec_msgs_suffix(base: u64, msgs: Seq<Vec<u8>>, from: int) -> Map<u64, Seq<u8>> {
    Map::new(|k: u64| base + from <= k < base + msgs.len(), |k: u64| msgs[k - base]@)
}

fn fill_inbox(inbox: &mut crate::inbox::Inbox, base: u64, msgs: Vec<Vec<u8>>)
    requires
        old(inbox).wf(),
        old(inbox)@ == Map::<u64, Seq<u8>>::empty(),
        base + msgs.len() <= u64::MAX,
    ensures
        final(inbox).wf(),
        final(inbox)@ == msgs_map(base, msgs.deep_view()),
{
    let ghost all = msgs@;
    let mut rest = msgs;
    proof {
        assert(rest@ =~= all.take(rest.len() as int));
        assert(inbox@ =~= vec_msgs_suffix(base, all, rest.len() as int));
    }
    while rest.len() > 0
        invariant
            inbox.wf(),
            base + all.len() <= u64::MAX,
            rest.len() <= all.len(),
            rest@ == all.take(rest.len() as int),
            inbox@ == vec_msgs_suffix(base, all, rest.len() as int),
        decreases rest.len(),
    {
        let ghost j = rest.len() - 1;
        let m = rest.pop().unwrap();
        proof {
            assert(rest.len() == j);
            assert(m == all.take(j + 1)[j]);
            assert(rest@ =~= all.take(j));
            assert(base + j < base + all.len());
            assert(!inbox@.contains_key((base + j) as u64));
        }
        inbox.insert(base + (rest.len() as u64), m);
        proof {
            assert(inbox@ =~= vec_msgs_suffix(base, all, j));
        }
    }
    proof {
        assert(inbox@ =~~= msgs_map(base, msgs.deep_view()));
    }
}

/// Installs a decoded bootstrap image into the session: the global slot
/// vectors are replaced wholesale, both inbox maps are cleared and rebuilt
/// by contiguous ingestion, the preimage store and horizon are kept, and
/// the session stops forking.
pub fn apply_bootstrap(env: &mut WasmEnv, init: BootstrapInit)
    requires
        old(env).wf(),
        init.last_block_hash.len() == 32,
        init.last_send_root.len() == 32,
        init.inbox_position + init.sequencer.len() <= u64::MAX,
        init.delayed_position + init.delayed.len() <= u64::MAX,
    ensures
        final(env).wf(),
        final(env)@ == bootstrap_transition(old(env)@, init@),
{
    let ghost image = init@;
    let BootstrapInit {
        inbox_position,
        position_within_message,
        last_block_hash,
        last_send_root,
        delayed_position,
        sequencer,
        delayed,
    } = init;
    let mut small: Vec<u64> = Vec::new();
    small.push(inbox_position);
    small.push(position_within_message);
    env.small_globals = small;
    let mut large: Vec<Vec<u8>> = Vec::new();
    large.push(last_block_hash);
    large.push(last_send_root);
    env.large_globals = large;
    env.sequencer_messages.clear();
    env.delayed_messages.clear();
    fill_inbox(&mut env.sequencer_messages, inbox_position, sequencer);
    fill_inbox(&mut env.delayed_messages, delayed_position, delayed);
    env.forks = false;
    proof {
        assert(env.small_globals@ =~= seq![image.inbox_position, image.position_within_message]);
        assert(env.large_globals.deep_view() =~~= seq![
            image.last_block_hash,
            image.last_send_root,
        ]);
        assert(env@ =~~= bootstrap_transition(old(env)@, image));
    }
}

proof fn lemma_u64_range_len(base: u64, n: nat)
    requires
        base + n <= u64::MAX + 1,
    ensures
        Set::new(|k: u64| base <= k < base + n).finite(),
        Set::new(|k: u64| base <= k < base + n).len() == n,
    decreases n,
{
    let s = Set::new(|k: u64| base <= k < base + n);
    if n == 0 {
        assert(s =~= Set::empty());
    } else {
        lemma_u64_range_len(base, (n - 1) as nat);
        let s0 = Set::new(|k: u64| base <= k < base + (n - 1));
        assert(s =~= s0.insert((base + n - 1) as u64));
    }
}

/// Law: ingesting `msgs` at base `base` yields exactly one contiguous key
/// per message — the keys `base, base + 1, ...` and no others — each mapped
/// to that message's bytes.
pub proof fn lemma_ingested_keys(base: u64, msgs: Seq<Seq<u8>>)
    requires
        base + msgs.len() <= u64::MAX,
    ensures
        forall|k: u64| msgs_map(base, msgs).contains_key(k) <==> base <= k < base + msgs.len(),
        forall|k: u64|
            base <= k < base + msgs.len() ==> msgs_map(base, msgs)[k] == msgs[k - base],
        msgs_map(base, msgs).len() == msgs.len(),
{
    lemma_u64_range_len(base, msgs.len());
    assert(msgs_map(base, msgs).dom() =~= Set::new(|k: u64| base <= k < base + msgs.len()));
}

/// Law: bootstrap overwrites all per-session state, so sessions forked from
/// one process image (sharing its preimage store and horizon) end up with
/// states determined by their own controller input alone — two sessions
/// given different inputs cannot contaminate one another.
pub proof fn lemma_bootstrap_overwrites(
    pre1: SessionView,
    pre2: SessionView,
    image: BootstrapImage,
)
    requires
        pre1.preimages == pre2.preimages,
        pre1.first_too_far == pre2.first_too_far,
    ensures
        bootstrap_transition(pre1, image) == bootstrap_transition(pre2, image),
{
    assert(bootstrap_transition(pre1, image) =~~= bootstrap_transition(pre2, image));
}

} // verus!

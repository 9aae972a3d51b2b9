//! Session state: the record shared by all host calls of one validation
//! session. It is created once per session, populated exactly once by the
//! bootstrap protocol, and read for the rest of the session's life.

use vstd::prelude::*;

use crate::inbox::Inbox;
use crate::preimages::Preimages;

verus! {

/// The mathematical content of a session: what every contract in this crate
/// speaks about.
#[verifier::ext_equal]
pub ghost struct SessionView {
    /// True until the bootstrap protocol has completed for this session.
    pub forks: bool,
    /// Fixed-index 64-bit slots (inbox position, position within message).
    pub small_globals: Seq<u64>,
    /// Fixed-index 32-byte slots (last block hash, last send root).
    pub large_globals: Seq<Seq<u8>>,
    /// Sequencer inbox: message index to message bytes.
    pub sequencer_messages: Map<u64, Seq<u8>>,
    /// Delayed inbox: independent key space, same shape.
    pub delayed_messages: Map<u64, Seq<u8>>,
    /// Content hash to preimage bytes.
    pub preimages: Map<Seq<u8>, Seq<u8>>,
    /// Exclusive upper bound on sequencer indices that must exist.
    pub first_too_far: u64,
}

/// The mutable session record. The embedding program owns exactly one per
/// session and holds it exclusively across each host call.
pub struct WasmEnv {
    pub forks: bool,
    pub small_globals: Vec<u64>,
    pub large_globals: Vec<Vec<u8>>,
    pub sequencer_messages: Inbox,
    pub delayed_messages: Inbox,
    pub preimages: Preimages,
    pub first_too_far: u64,
}

impl View for WasmEnv {
    type V = SessionView;

    open spec fn view(&self) -> SessionView {
        SessionView {
            forks: self.forks,
            small_globals: self.small_globals@,
            large_globals: self.large_globals.deep_view(),
            sequencer_messages: self.sequencer_messages@,
            delayed_messages: self.delayed_messages@,
            preimages: self.preimages@,
            first_too_far: self.first_too_far,
        }
    }
}

impl WasmEnv {
    /// The message stores are well formed and every 32-byte slot really
    /// holds 32 bytes.
    pub open spec fn wf(&self) -> bool {
        &&& self.sequencer_messages.wf()
        &&& self.delayed_messages.wf()
        &&& self.preimages.wf()
        &&& forall|i: int|
            0 <= i < self.large_globals.len() ==> #[trigger] self.large_globals@[i]@.len() == 32
    }

    /// A fresh, pre-bootstrap session: everything empty, `forks` set.
    pub fn new() -> (r: WasmEnv)
        ensures
            r.wf(),
            r@.forks == true,
            r@.small_globals == Seq::<u64>::empty(),
            r@.large_globals == Seq::<Seq<u8>>::empty(),
            r@.sequencer_messages == Map::<u64, Seq<u8>>::empty(),
            r@.delayed_messages == Map::<u64, Seq<u8>>::empty(),
            r@.preimages == Map::<Seq<u8>, Seq<u8>>::empty(),
            r@.first_too_far == 0,
    {
        let r = WasmEnv {
            forks: true,
            small_globals: Vec::new(),
            large_globals: Vec::new(),
            sequencer_messages: Inbox::new(),
            delayed_messages: Inbox::new(),
            preimages: Preimages::new(),
            first_too_far: 0,
        };
        proof {
            assert(r.large_globals.deep_view() =~= Seq::<Seq<u8>>::empty());
        }
        r
    }
}

} // verus!

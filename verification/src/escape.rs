//! The two-tier error model of the host-I/O bridge.
//!
//! A fatal escape aborts the current validation step: the data a call asked
//! for was supposed to exist and does not, a guest-memory bound was violated,
//! or the bootstrap stream was malformed or truncated after a connection was
//! established. Exhaustion of the controller's input is a clean shutdown,
//! not an error. Non-fatal conditions (a fixed-size transfer declared with a
//! length other than 32) never surface here: the call reports zero bytes and
//! returns success.

use vstd::prelude::*;

verus! {

/// A condition that ends the current session's validation attempt.
///
/// Rendering the diagnostic text is left to the embedding program, which
/// has the variant's data and the call frame at hand.
#[derive(Debug, PartialEq, Eq)]
pub enum Escape {
    /// The controller closed its input before requesting another session:
    /// the one clean, expected termination path.
    SessionTerminated,
    /// A global state slot index at or beyond the current slot-vector length.
    GlobalOutOfBounds,
    /// An inbox index below the horizon that the inbox map does not hold:
    /// ingestion should have provided this message.
    MissingMessage { msg_num: u64, first_too_far: u64 },
    /// An inbox index at or beyond the horizon: the guest asked past the
    /// proven range.
    MessageTooFar { msg_num: u64, first_too_far: u64 },
    /// A destination pointer outside guest memory on an inbox read.
    UnknownMessageType,
    /// A 32-byte hash with no preimage in the oracle. The requested hash
    /// still sits in the call frame for diagnostics.
    MissingPreimage,
    /// A read offset too large to address guest data.
    BadOffset { offset: u64 },
    /// The bootstrap stream ended or went wrong after the fork succeeded.
    BootstrapIOFailure,
}

} // verus!

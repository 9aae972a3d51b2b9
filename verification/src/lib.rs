//! Deterministic host-I/O bridge for replaying one step of a rollup chain
//! inside a sandboxed guest.
//!
//! The library serves four kinds of data through a numerically addressed
//! call interface: fixed-shape global state slots, two append-only inboxes
//! (sequencer and delayed), and a content-addressed preimage oracle. Every
//! byte returned must be bit-for-bit reproducible: the contracts here pin
//! down exactly which bytes each call writes into guest memory and which
//! fatal condition it raises otherwise.


pub mod bootstrap;
pub mod bytes;
pub mod chunk;
pub mod escape;
pub mod frame;
pub mod globals;
pub mod inbox;
pub mod messages;
pub mod oracle;
pub mod port;
pub mod preimages;
pub mod session;

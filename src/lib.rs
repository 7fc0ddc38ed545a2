//! A rendezvous relay for datagrams: clients name themselves by a seven-byte
//! identifier, the relay remembers where each one was last heard from, and
//! frames addressed to a recently heard identifier are passed on verbatim.

use vstd::prelude::*;

pub mod address;
pub mod cli;
pub mod frame;
pub mod laws;
pub mod registry;
pub mod relay;

verus! {

/// Length in bytes of a client identifier.
pub const ID_LEN: usize = 7;

/// Most clients that a registry made by `Registry::new` holds at once.
pub const MAX_CLIENTS: usize = 1000;

/// How long, in nanoseconds, a client stays eligible as a forwarding target
/// after its last frame: one hundred seconds.
pub const TIMEOUT_NANOS: u64 = 100_000_000_000;

/// Largest datagram the relay reads.
pub const MAX_DATAGRAM_LEN: usize = 1460;

/// Port the relay listens on when none is given.
pub const DEFAULT_PORT: u16 = 60050;

} // verus!

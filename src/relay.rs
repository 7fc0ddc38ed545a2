use vstd::prelude::*;

use crate::address::Address;
use crate::frame::{is_valid_frame, parse_frame, receiver_of, sender_of};
use crate::registry::{fresh_record, refreshed, Registry, RegistryError};
use crate::TIMEOUT_NANOS;

verus! {

/// What became of one datagram.
#[derive(Clone, Copy, Debug, PartialEq, Eq, Structural)]
pub enum Outcome {
    /// Too short or not tagged: dropped, the registry untouched.
    Malformed,
    /// The sender is new and the registry is full: dropped.
    RegistryFull,
    /// The receiver is unknown or has gone quiet: dropped.
    NoTarget,
    /// The datagram is to be sent, unchanged, to this address.
    Forward(Address),
}

/// The registry and the outcome after datagram `buf` arrived from `from` at
/// `now`, starting from registry `m` of the given capacity.
pub open spec fn step(
    m: Map<Seq<u8>, (Address, u64)>,
    capacity: nat,
    buf: Seq<u8>,
    from: Address,
    now: u64,
) -> (Map<Seq<u8>, (Address, u64)>, Outcome) {
    if !is_valid_frame(buf) {
        (m, Outcome::Malformed)
    } else {
        match refreshed(m, capacity, sender_of(buf), from, now) {
            None => (m, Outcome::RegistryFull),
            Some(m2) => (
                m2,
                match fresh_record(m2, receiver_of(buf), now, TIMEOUT_NANOS) {
                    Some(rec) => Outcome::Forward(rec.0),
                    None => Outcome::NoTarget,
                },
            ),
        }
    }
}

/// Handles one datagram `buf` that arrived from `from` at `now` (nanoseconds
/// since the Unix epoch): checks its framing, records its sender, and tells
/// where, if anywhere, the datagram is to be forwarded unchanged.
pub fn handle_packet(registry: &mut Registry, buf: &[u8], from: Address, now: u64) -> (r: Outcome)
    requires
        old(registry).wf(),
    ensures
        final(registry).wf(),
        final(registry).spec_capacity() == old(registry).spec_capacity(),
        (final(registry)@, r) == step(old(registry)@, old(registry).spec_capacity(), buf@, from, now),
{
    let frame = match parse_frame(buf) {
        Some(f) => f,
        None => return Outcome::Malformed,
    };
    match registry.refresh_or_create(frame.sender, from, now) {
        Ok(_) => {},
        Err(RegistryError::Full) => return Outcome::RegistryFull,
    }
    match registry.find_fresh(&frame.receiver, now, TIMEOUT_NANOS) {
        Some(entry) => Outcome::Forward(entry.address),
        None => Outcome::NoTarget,
    }
}

} // verus!

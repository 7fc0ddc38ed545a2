use vstd::prelude::*;

use crate::address::Address;
use crate::frame::{is_valid_frame, receiver_of, sender_of};
use crate::registry::{is_fresh, Registry};
use crate::relay::{step, Outcome};
use crate::TIMEOUT_NANOS;

verus! {

/// A valid frame from an unknown sender, while the registry has room,
/// registers the sender at the address the frame came from.
pub proof fn lemma_new_sender_registered(reg: &Registry, buf: Seq<u8>, from: Address, now: u64)
    requires
        reg.wf(),
        is_valid_frame(buf),
        !reg@.contains_key(sender_of(buf)),
        reg.size() < reg.spec_capacity(),
    ensures
        ({
            let after = step(reg@, reg.spec_capacity(), buf, from, now).0;
            &&& after.contains_key(sender_of(buf))
            &&& after[sender_of(buf)] == (from, now)
            &&& after.dom().len() == reg.size() + 1
        }),
{
    reg.lemma_within_capacity();
}

/// A valid frame from a registered sender moves that sender to the new
/// address and time, adds no entry, and is never refused for lack of room.
pub proof fn lemma_known_sender_refreshed(reg: &Registry, buf: Seq<u8>, from: Address, now: u64)
    requires
        reg.wf(),
        is_valid_frame(buf),
        reg@.contains_key(sender_of(buf)),
    ensures
        ({
            let (after, out) = step(reg@, reg.spec_capacity(), buf, from, now);
            &&& after == reg@.insert(sender_of(buf), (from, now))
            &&& after.dom().len() == reg.size()
            &&& out != Outcome::RegistryFull
        }),
{
    reg.lemma_within_capacity();
    let after = reg@.insert(sender_of(buf), (from, now));
    assert(after.dom() =~= reg@.dom());
}

/// No frame takes the registry past its capacity; once it is full, a frame
/// from a new sender is refused and leaves the registry as it was.
pub proof fn lemma_capacity_respected(reg: &Registry, buf: Seq<u8>, from: Address, now: u64)
    requires
        reg.wf(),
    ensures
        ({
            let (after, out) = step(reg@, reg.spec_capacity(), buf, from, now);
            &&& after.dom().finite()
            &&& after.dom().len() <= reg.spec_capacity()
            &&& (is_valid_frame(buf) && !reg@.contains_key(sender_of(buf)) && reg.size()
                == reg.spec_capacity()) ==> after == reg@ && out == Outcome::RegistryFull
        }),
{
    reg.lemma_within_capacity();
    if is_valid_frame(buf) && reg@.contains_key(sender_of(buf)) {
        let after = reg@.insert(sender_of(buf), (from, now));
        assert(after.dom() =~= reg@.dom());
    }
}

/// A frame from a registered sender naming another client that was active
/// within the timeout is forwarded to that client's address, and only there.
pub proof fn lemma_forward_to_fresh_receiver(
    reg: &Registry,
    buf: Seq<u8>,
    from: Address,
    now: u64,
)
    requires
        reg.wf(),
        is_valid_frame(buf),
        reg@.contains_key(sender_of(buf)),
        reg@.contains_key(receiver_of(buf)),
        receiver_of(buf) != sender_of(buf),
        is_fresh(reg@[receiver_of(buf)].1, now, TIMEOUT_NANOS),
    ensures
        step(reg@, reg.spec_capacity(), buf, from, now).1 == Outcome::Forward(
            reg@[receiver_of(buf)].0,
        ),
{
}

/// A frame naming another client that has been quiet for longer than the
/// timeout is not forwarded.
pub proof fn lemma_stale_receiver_not_forwarded(
    reg: &Registry,
    buf: Seq<u8>,
    from: Address,
    now: u64,
)
    requires
        reg.wf(),
        is_valid_frame(buf),
        reg@.contains_key(receiver_of(buf)),
        receiver_of(buf) != sender_of(buf),
        !is_fresh(reg@[receiver_of(buf)].1, now, TIMEOUT_NANOS),
    ensures
        !(step(reg@, reg.spec_capacity(), buf, from, now).1 is Forward),
{
}

/// A datagram that is not a valid frame changes nothing and goes nowhere.
pub proof fn lemma_malformed_ignored(reg: &Registry, buf: Seq<u8>, from: Address, now: u64)
    requires
        reg.wf(),
        !is_valid_frame(buf),
    ensures
        step(reg@, reg.spec_capacity(), buf, from, now) == (reg@, Outcome::Malformed),
{
}

/// Handling the same frame again, from any address and at any time, adds no
/// identifier beyond those the first handling left.
pub proof fn lemma_repeat_adds_no_entry(
    reg: &Registry,
    buf: Seq<u8>,
    from: Address,
    now: u64,
    from2: Address,
    now2: u64,
)
    requires
        reg.wf(),
    ensures
        ({
            let first = step(reg@, reg.spec_capacity(), buf, from, now).0;
            step(first, reg.spec_capacity(), buf, from2, now2).0.dom() == first.dom()
        }),
{
    let first = step(reg@, reg.spec_capacity(), buf, from, now).0;
    if is_valid_frame(buf) && first.contains_key(sender_of(buf)) {
        assert(first.insert(sender_of(buf), (from2, now2)).dom() =~= first.dom());
    }
}

} // verus!

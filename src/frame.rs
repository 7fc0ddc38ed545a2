use vstd::prelude::*;

use crate::registry::ClientId;
use crate::ID_LEN;

verus! {

/// Offset of the sender identifier in a frame.
pub const SENDER_OFFSET: usize = 6;

/// Offset of the receiver identifier in a frame.
pub const RECEIVER_OFFSET: usize = 13;

/// Shortest frame: tag, two reserved bytes and two identifiers.
pub const MIN_FRAME_LEN: usize = 20;

/// The four bytes every frame starts with: ASCII `NRL2`.
pub open spec fn magic() -> Seq<u8> {
    seq![78u8, 82u8, 76u8, 50u8]
}

/// Whether `b` is a frame of the relay protocol.
pub open spec fn is_valid_frame(b: Seq<u8>) -> bool {
    b.len() >= MIN_FRAME_LEN && b.subrange(0, 4) == magic()
}

/// The sender identifier of frame `b`.
pub open spec fn sender_of(b: Seq<u8>) -> Seq<u8> {
    b.subrange(SENDER_OFFSET as int, RECEIVER_OFFSET as int)
}

/// The receiver identifier of frame `b`.
pub open spec fn receiver_of(b: Seq<u8>) -> Seq<u8> {
    b.subrange(RECEIVER_OFFSET as int, MIN_FRAME_LEN as int)
}

/// The two identifiers a frame carries.
#[derive(Clone, Copy, Debug, PartialEq, Eq)]
pub struct Frame {
    pub sender: ClientId,
    pub receiver: ClientId,
}

/// The identifier stored at `offset` in `buf`.
fn read_id(buf: &[u8], offset: usize) -> (r: ClientId)
    requires
        offset + ID_LEN <= buf@.len(),
    ensures
        r@ == buf@.subrange(offset as int, offset + ID_LEN),
{
    let mut id: ClientId = [0u8; ID_LEN];
    let mut i: usize = 0;
    while i < ID_LEN
        invariant
            i <= ID_LEN,
            offset + ID_LEN <= buf.len(),
            id@.len() == ID_LEN,
            forall|j: int| 0 <= j < i ==> id@[j] == buf@[offset + j],
        decreases ID_LEN - i,
    {
        id[i] = buf[offset + i];
        i = i + 1;
    }
    assert(id@ =~= buf@.subrange(offset as int, offset + ID_LEN));
    id
}

/// Checks the framing of a datagram and reads its two identifiers. A datagram
/// that is too short or does not start with the tag gives `None`.
pub fn parse_frame(buf: &[u8]) -> (r: Option<Frame>)
    ensures
        r.is_some() == is_valid_frame(buf@),
        r matches Some(f) ==> f.sender@ == sender_of(buf@) && f.receiver@ == receiver_of(buf@),
{
    if buf.len() < MIN_FRAME_LEN {
        return None;
    }
    if !(buf[0] == 78u8 && buf[1] == 82u8 && buf[2] == 76u8 && buf[3] == 50u8) {
        proof {
            if buf@.subrange(0, 4) == magic() {
                assert(buf@.subrange(0, 4)[0] == buf@[0]);
                assert(buf@.subrange(0, 4)[1] == buf@[1]);
                assert(buf@.subrange(0, 4)[2] == buf@[2]);
                assert(buf@.subrange(0, 4)[3] == buf@[3]);
            }
        }
        return None;
    }
    assert(buf@.subrange(0, 4) =~= magic());
    let sender = read_id(buf, SENDER_OFFSET);
    let receiver = read_id(buf, RECEIVER_OFFSET);
    Some(Frame { sender, receiver })
}

} // verus!

//! The byte stream of the console: what goes onto the wire for a write, and
//! what a read takes from the bytes that have arrived.

use vstd::prelude::*;

verus! {

/// Line feed.
pub const LF: u8 = 0x0a;

/// Carriage return.
pub const CR: u8 = 0x0d;

/// What is sent for one byte: a line feed is sent as carriage return and
/// line feed, every other byte as itself.
pub open spec fn wire_byte(byte: u8) -> Seq<u8> {
    if byte == LF {
        seq![CR, LF]
    } else {
        seq![byte]
    }
}

/// What is sent for `bytes`.
pub open spec fn wire_form(bytes: Seq<u8>) -> Seq<u8>
    decreases bytes.len(),
{
    if bytes.len() == 0 {
        Seq::empty()
    } else {
        wire_form(bytes.drop_last()) + wire_byte(bytes.last())
    }
}

/// The number of bytes that a read into a buffer of `room` bytes takes when
/// `arrived` bytes have arrived.
pub open spec fn read_count(room: int, arrived: int) -> int {
    if room <= arrived {
        room
    } else {
        arrived
    }
}

/// The bytes to send to the device, in order, for a write of `bytes`.
pub fn write_bytes(bytes: &[u8]) -> (wire: Vec<u8>)
    ensures
        wire@ == wire_form(bytes@),
{
    let mut wire: Vec<u8> = Vec::new();
    let mut i: usize = 0;
    while i < bytes.len()
        invariant
            i <= bytes@.len(),
            wire@ == wire_form(bytes@.take(i as int)),
        decreases bytes@.len() - i,
    {
        let byte = bytes[i];
        if byte == LF {
            wire.push(CR);
            wire.push(LF);
        } else {
            wire.push(byte);
        }
        assert(bytes@.take(i + 1).drop_last() =~= bytes@.take(i as int));
        assert(wire@ =~= wire_form(bytes@.take(i as int)) + wire_byte(byte));
        i += 1;
    }
    assert(bytes@.take(i as int) =~= bytes@);
    wire
}

/// Fills `bytes` from the front with the bytes that have arrived, oldest
/// first, as far as both reach, and returns how many it took. The rest of
/// `bytes` is left as it was.
pub fn read_bytes(bytes: &mut [u8], arrived: &[u8]) -> (count: usize)
    ensures
        count == read_count(old(bytes)@.len() as int, arrived@.len() as int),
        final(bytes)@ == arrived@.take(count as int) + old(bytes)@.skip(count as int),
{
    let mut i: usize = 0;
    while i < bytes.len() && i < arrived.len()
        invariant
            bytes@.len() == old(bytes)@.len(),
            i <= bytes@.len(),
            i <= arrived@.len(),
            bytes@ == arrived@.take(i as int) + old(bytes)@.skip(i as int),
        decreases bytes@.len() - i,
    {
        bytes[i] = arrived[i];
        i += 1;
        assert(bytes@ =~= arrived@.take(i as int) + old(bytes)@.skip(i as int));
    }
    i
}

/// A write can be split: sending `front` and then `back` puts the same bytes
/// onto the wire as sending both at once.
pub proof fn lemma_wire_form_add(front: Seq<u8>, back: Seq<u8>)
    ensures
        wire_form(front + back) == wire_form(front) + wire_form(back),
    decreases back.len(),
{
    if back.len() == 0 {
        assert(front + back =~= front);
        assert(wire_form(front) + wire_form(back) =~= wire_form(front));
    } else {
        assert((front + back).drop_last() =~= front + back.drop_last());
        lemma_wire_form_add(front, back.drop_last());
        assert(wire_form(front + back) =~= wire_form(front) + wire_form(back));
    }
}

/// No line feed goes out alone: each one on the wire follows a carriage
/// return.
pub proof fn lemma_line_feed_follows_carriage_return(bytes: Seq<u8>)
    ensures
        forall|k: int|
            0 <= k < wire_form(bytes).len() && #[trigger] wire_form(bytes)[k] == LF ==> k > 0
                && wire_form(bytes)[k - 1] == CR,
    decreases bytes.len(),
{
    if bytes.len() > 0 {
        let earlier = wire_form(bytes.drop_last());
        let all = wire_form(bytes);
        lemma_line_feed_follows_carriage_return(bytes.drop_last());
        assert(all == earlier + wire_byte(bytes.last()));
        assert forall|k: int| 0 <= k < all.len() && #[trigger] all[k] == LF implies k > 0 && all[k
            - 1] == CR by {
            if k < earlier.len() {
                assert(all[k] == earlier[k]);
                assert(all[k - 1] == earlier[k - 1]);
            } else {
                assert(all[k] == wire_byte(bytes.last())[k - earlier.len()]);
                assert(bytes.last() == LF);
                assert(k == earlier.len() + 1);
                assert(all[k - 1] == wire_byte(bytes.last())[0]);
            }
        }
    }
}

} // verus!

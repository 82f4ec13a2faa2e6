//! What goes over the wire, byte by byte, and what endpoints do with it.
use crate::message::{Packet, WireMessage};
use crate::slots::{all_draws_missed, judge_draw, random_draw, take_slot, Draw};
use crate::server_laws::no_slot_was_drawn;
use crate::transport::{self, Received, Transport};
use crate::utils::{self, le_u16_round_trip, le_u64_round_trip, CodecError, Incoming};
use vstd::prelude::*;

verus! {

/// The number that bytes stand for, the lowest first.
pub open spec fn number(bytes: Seq<u8>) -> nat
    decreases bytes.len(),
{
    if bytes.len() == 0 {
        0
    } else {
        bytes[0] as nat + 256 * number(bytes.skip(1))
    }
}

proof fn number_of_two(bytes: Seq<u8>)
    requires
        bytes.len() == 2,
    ensures
        number(bytes) == bytes[0] + 256 * bytes[1],
{
    reveal_with_fuel(number, 4);
    assert(bytes.skip(1)[0] == bytes[1]);
}

proof fn number_of_eight(bytes: Seq<u8>)
    requires
        bytes.len() == 8,
    ensures
        number(bytes) == utils::from_le_u64(bytes),
{
    reveal_with_fuel(number, 10);
    let b1 = bytes.skip(1);
    let b2 = b1.skip(1);
    let b3 = b2.skip(1);
    let b4 = b3.skip(1);
    let b5 = b4.skip(1);
    let b6 = b5.skip(1);
    let b7 = b6.skip(1);
    assert(b1[0] == bytes[1] && b2[0] == bytes[2] && b3[0] == bytes[3] && b4[0] == bytes[4]
        && b5[0] == bytes[5] && b6[0] == bytes[6] && b7[0] == bytes[7]);
}

/// A frame is the slot in two bytes, the length in eight, both little endian, and the message.
pub proof fn frames_have_their_layout(message: &WireMessage, raw: Result<Vec<u8>, CodecError>)
    requires
        call_ensures(utils::encode, (message,), raw),
        message.inner@.len() <= u64::MAX,
    ensures
        raw is Ok,
        raw->Ok_0@.len() == 10 + message.inner@.len(),
        number(raw->Ok_0@.take(2)) == message.c_slot,
        number(raw->Ok_0@.subrange(2, 10)) == message.inner@.len(),
        raw->Ok_0@.skip(10) == message.inner@,
{
    let bytes = raw->Ok_0@;
    le_u16_round_trip(message.c_slot);
    le_u64_round_trip(message.inner@.len() as u64);
    let slot = utils::le_u16(message.c_slot);
    let length = utils::le_u64(message.inner@.len() as u64);
    assert(bytes.take(2) =~= slot);
    assert(bytes.subrange(2, 10) =~= length);
    assert(bytes.skip(10) =~= message.inner@);
    number_of_two(slot);
    number_of_eight(length);
}

/// Any message can be written as a frame if the frame fits into memory.
pub proof fn frames_can_be_written(message: &WireMessage, other: &transport::WireMessage)
    ensures
        message.inner@.len() + 10 <= isize::MAX ==> call_requires(utils::encode, (message,)),
        other.inner@.len() + 11 <= isize::MAX ==> call_requires(transport::encode, (other,)),
{
}

/// Bytes are read as a frame exactly if they hold the slot, the length, and a message of that
/// length. What is read is the slot and the message that the bytes hold.
pub proof fn frames_are_read(raw: &[u8], message: Result<WireMessage, CodecError>)
    requires
        call_ensures(utils::decode, (raw,), message),
    ensures
        message is Ok <==> raw@.len() >= 10 && number(raw@.subrange(2, 10)) <= raw@.len() - 10,
        message is Ok ==> {
            &&& number(raw@.take(2)) == message->Ok_0.c_slot
            &&& message->Ok_0.inner@ == raw@.subrange(
                10,
                10 + number(raw@.subrange(2, 10)) as int,
            )
        },
        message is Err ==> message->Err_0 == CodecError::Decode,
{
    if raw@.len() >= 10 {
        number_of_two(raw@.take(2));
        number_of_eight(raw@.subrange(2, 10));
        assert(utils::from_le_u64(raw@.subrange(2, 10)) == utils::frame_length(raw@));
    }
}

/// What was written as a frame is what is read.
pub proof fn frames_are_read_as_written(
    message: &WireMessage,
    raw: Vec<u8>,
    slice: &[u8],
    read: Result<WireMessage, CodecError>,
)
    requires
        call_ensures(utils::encode, (message,), Ok(raw)),
        message.inner@.len() <= u64::MAX,
        slice@ == raw@,
        call_ensures(utils::decode, (slice,), read),
    ensures
        read is Ok,
        read->Ok_0.c_slot == message.c_slot,
        read->Ok_0.inner@ == message.inner@,
{
    utils::decode_undoes_encode(message@, Seq::empty());
}

/// A packet of bytes that is a frame is opened, one that is not is told, and others are ignored.
pub proof fn packets_are_opened(packet: Packet, incoming: Incoming)
    requires
        call_ensures(utils::open_packet, (packet,), incoming),
    ensures
        incoming is Ignored <==> packet is Other,
        packet matches Packet::Binary(raw) ==> {
            &&& incoming is Message <==> raw@.len() >= 10 && number(raw@.subrange(2, 10))
                <= raw@.len() - 10
            &&& incoming matches Incoming::Message(message) ==> number(raw@.take(2))
                == message.c_slot && message.inner@ == raw@.subrange(
                10,
                10 + number(raw@.subrange(2, 10)) as int,
            )
        },
{
    if let Packet::Binary(raw) = packet {
        if raw@.len() >= 10 {
            number_of_two(raw@.take(2));
            number_of_eight(raw@.subrange(2, 10));
            assert(utils::from_le_u64(raw@.subrange(2, 10)) == utils::frame_length(raw@));
        }
    }
}

/// A frame of an endpoint is the slot in two bytes, the flag in one, the length in eight, and the
/// message.
pub proof fn endpoint_frames_have_their_layout(
    message: &transport::WireMessage,
    raw: Result<Vec<u8>, CodecError>,
)
    requires
        call_ensures(transport::encode, (message,), raw),
        message.inner@.len() <= u64::MAX,
    ensures
        raw is Ok,
        raw->Ok_0@.len() == 11 + message.inner@.len(),
        number(raw->Ok_0@.take(2)) == message.c_slot,
        raw->Ok_0@[2] == (if message.subscribe {
            1u8
        } else {
            0u8
        }),
        number(raw->Ok_0@.subrange(3, 11)) == message.inner@.len(),
        raw->Ok_0@.skip(11) == message.inner@,
{
    let bytes = raw->Ok_0@;
    le_u16_round_trip(message.c_slot);
    le_u64_round_trip(message.inner@.len() as u64);
    let slot = utils::le_u16(message.c_slot);
    let length = utils::le_u64(message.inner@.len() as u64);
    assert(bytes.take(2) =~= slot);
    assert(bytes.subrange(3, 11) =~= length);
    assert(bytes.skip(11) =~= message.inner@);
    number_of_two(slot);
    number_of_eight(length);
}

/// The bytes begin with a frame of an endpoint.
pub open spec fn holds_frame(raw: Seq<u8>) -> bool {
    raw.len() >= 11 && raw[2] <= 1 && number(raw.subrange(3, 11)) <= raw.len() - 11
}

/// The frame is the one with which the bytes begin.
pub open spec fn is_frame_of(message: transport::WireView, raw: Seq<u8>) -> bool {
    &&& number(raw.take(2)) == message.c_slot
    &&& message.subscribe == (raw[2] == 1)
    &&& message.inner == raw.subrange(11, 11 + number(raw.subrange(3, 11)) as int)
}

proof fn framed_is_the_frame(raw: Seq<u8>)
    ensures
        transport::framed(raw) is Some <==> holds_frame(raw),
        transport::framed(raw) is Some ==> is_frame_of(transport::framed(raw)->0, raw),
{
    if raw.len() >= 11 {
        number_of_two(raw.take(2));
        number_of_eight(raw.subrange(3, 11));
        assert(utils::from_le_u64(raw.subrange(3, 11)) == transport::frame_length(raw));
    }
}

/// Bytes are read as a frame of an endpoint exactly if they begin with one, and what is read is
/// that frame.
pub proof fn endpoint_frames_are_read(
    raw: &[u8],
    message: Result<transport::WireMessage, CodecError>,
)
    requires
        call_ensures(transport::decode, (raw,), message),
    ensures
        message is Ok <==> holds_frame(raw@),
        message is Ok ==> is_frame_of(message->Ok_0@, raw@),
        message is Err ==> message->Err_0 == CodecError::Decode,
{
    framed_is_the_frame(raw@);
}

/// A packet that begins with a frame waits behind all that came in before, if fewer than 16 wait.
/// Other packets change nothing.
pub proof fn endpoints_receive_frames(
    endpoint: &mut Transport,
    packet: Packet,
    received: Received,
)
    requires
        call_ensures(Transport::receive, (endpoint, packet), received),
    ensures
        received == Received::Ignored <==> packet is Other,
        packet matches Packet::Binary(raw) ==> {
            &&& received == Received::Undecodable <==> !holds_frame(raw@)
            &&& holds_frame(raw@) ==> (received == Received::Queued <==> old(endpoint)@.rx.len()
                < 16)
            &&& received == Received::Queued ==> {
                &&& final(endpoint)@.rx.len() == old(endpoint)@.rx.len() + 1
                &&& final(endpoint)@.rx.drop_last() == old(endpoint)@.rx
                &&& is_frame_of(final(endpoint)@.rx.last(), raw@)
            }
        },
        received != Received::Queued ==> final(endpoint)@.rx == old(endpoint)@.rx,
        final(endpoint)@.c_slots == old(endpoint)@.c_slots,
{
    if let Packet::Binary(raw) = packet {
        framed_is_the_frame(raw@);
        if received == Received::Queued {
            assert(final(endpoint)@.rx.drop_last() =~= old(endpoint)@.rx);
        }
    }
}

/// What is received is the frame that came in first, and the others wait on. Nothing is received
/// only if nothing waits.
pub proof fn endpoints_hand_frames_out_in_order(
    fresh: Transport,
    endpoint: &mut Transport,
    message: Option<transport::WireMessage>,
)
    requires
        call_ensures(Transport::build, (), fresh),
        call_ensures(Transport::recv, (endpoint,), message),
    ensures
        fresh@.rx.len() == 0 && fresh@.c_slots.len() == 0,
        message is Some <==> old(endpoint)@.rx.len() > 0,
        message is Some ==> seq![message->0@] + final(endpoint)@.rx == old(endpoint)@.rx,
        message is None ==> final(endpoint)@ == old(endpoint)@,
        final(endpoint)@.c_slots == old(endpoint)@.c_slots,
{
    if message is Some {
        assert(seq![message->0@] + final(endpoint)@.rx =~= old(endpoint)@.rx);
    }
}

/// A frame carries what it is given to carry, from the slot that is given, or else from a new one.
/// There is none only if a new one is needed and every draw missed.
pub proof fn endpoints_send_frames(
    endpoint: &mut Transport,
    c_slot: Option<u16>,
    inner: Vec<u8>,
    subscribe: bool,
    message: Option<transport::WireMessage>,
)
    requires
        call_ensures(Transport::send, (endpoint, c_slot, inner, subscribe), message),
    ensures
        message is None ==> c_slot is None && no_slot_was_drawn(old(endpoint)@.c_slots),
        message is Some ==> message->0.inner == inner && message->0.subscribe == subscribe,
        c_slot is Some ==> message is Some && message->0.c_slot == c_slot->0 && final(endpoint)@
            == old(endpoint)@,
        c_slot is None && message is Some ==> !old(endpoint)@.c_slots.contains(
            message->0.c_slot,
        ) && final(endpoint)@.c_slots == old(endpoint)@.c_slots.push(message->0.c_slot),
        final(endpoint)@.rx == old(endpoint)@.rx,
{
    if message is None {
        let draws = all_draws_missed(random_draw, old(endpoint)@.c_slots);
        assert(draws.len() == 1026);
    }
}

/// A new slot is handed out that was not handed out before, unless every draw missed. A frame is
/// made for the slot that was found.
pub proof fn endpoints_find_slots(
    endpoint: &mut Transport,
    slot: Option<u16>,
    inner: Vec<u8>,
    subscribe: bool,
    message: Option<transport::WireMessage>,
)
    requires
        call_ensures(Transport::allocate_slot, (endpoint,), slot),
        call_ensures(Transport::message_from, (slot, inner, subscribe), message),
    ensures
        slot is None
            ==> no_slot_was_drawn(old(endpoint)@.c_slots) && final(endpoint)@ == old(endpoint)@,
        slot is Some ==> !old(endpoint)@.c_slots.contains(slot->0) && final(endpoint)@.c_slots
            == old(endpoint)@.c_slots.push(slot->0),
        final(endpoint)@.rx == old(endpoint)@.rx,
        message is Some <==> slot is Some,
        message is Some ==> message->0.c_slot == slot->0 && message->0.inner == inner
            && message->0.subscribe == subscribe,
{
    if slot is None {
        let draws = all_draws_missed(random_draw, old(endpoint)@.c_slots);
        assert(draws.len() == 1026);
    }
}

/// A slot is taken exactly if it is not in use, and is in use then. A draw that is vacant is used,
/// and one that misses is the last one only if more than 1024 came before it.
pub proof fn draws_are_judged(
    slots: &mut Vec<u16>,
    slot: u16,
    vacant: bool,
    depth: u32,
    draw: Draw,
)
    requires
        call_ensures(take_slot, (slots, slot), vacant),
        call_ensures(judge_draw, (depth, vacant), draw),
    ensures
        vacant <==> !old(slots)@.contains(slot),
        vacant ==> final(slots)@ == old(slots)@.push(slot),
        !vacant ==> final(slots)@ == old(slots)@,
        draw == Draw::Use <==> vacant,
        draw == Draw::GiveUp <==> !vacant && depth > 1024,
{
}

} // verus!

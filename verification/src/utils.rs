//! Frames on the wire.
//!
//! A frame is a communication slot and an encoded message. On the wire it is the slot in two
//! bytes, the length of the message in eight, both little endian, and the message.
use crate::message::{Packet, WireMessage, WireView};
use vstd::prelude::*;

verus! {

#[derive(Clone, Copy, Debug, PartialEq, Eq, Structural)]
pub enum CodecError {
    Encode,
    Decode,
}

/// A number in two bytes, the lowest first.
pub open spec fn le_u16(x: u16) -> Seq<u8> {
    seq![(x % 256) as u8, (x / 256) as u8]
}

/// The number in the first two bytes.
pub open spec fn from_le_u16(bytes: Seq<u8>) -> u16 {
    (bytes[0] + bytes[1] * 256) as u16
}

/// A number in eight bytes, the lowest first.
pub open spec fn le_u64(x: u64) -> Seq<u8> {
    seq![
        (x % 0x100) as u8,
        (x / 0x100 % 0x100) as u8,
        (x / 0x1_0000 % 0x100) as u8,
        (x / 0x100_0000 % 0x100) as u8,
        (x / 0x1_0000_0000 % 0x100) as u8,
        (x / 0x100_0000_0000 % 0x100) as u8,
        (x / 0x1_0000_0000_0000 % 0x100) as u8,
        (x / 0x100_0000_0000_0000) as u8,
    ]
}

/// The number in the first eight bytes.
pub open spec fn from_le_u64(bytes: Seq<u8>) -> nat {
    (bytes[0] + bytes[1] * 0x100 + bytes[2] * 0x1_0000 + bytes[3] * 0x100_0000 + bytes[4]
        * 0x1_0000_0000 + bytes[5] * 0x100_0000_0000 + bytes[6] * 0x1_0000_0000_0000 + bytes[7]
        * 0x100_0000_0000_0000) as nat
}

/// A number that is written in two bytes is read back from them.
pub proof fn le_u16_round_trip(x: u16)
    ensures
        from_le_u16(le_u16(x)) == x,
{
    assert(x % 256 < 256 && x / 256 < 256 && x == x % 256 + x / 256 * 256) by (bit_vector);
}

/// A number that is written in eight bytes is read back from them.
pub proof fn le_u64_round_trip(x: u64)
    ensures
        from_le_u64(le_u64(x)) == x,
{
    assert(x / 0x1_0000 == (x / 0x100) / 0x100) by (bit_vector);
    assert(x / 0x100_0000 == (x / 0x1_0000) / 0x100) by (bit_vector);
    assert(x / 0x1_0000_0000 == (x / 0x100_0000) / 0x100) by (bit_vector);
    assert(x / 0x100_0000_0000 == (x / 0x1_0000_0000) / 0x100) by (bit_vector);
    assert(x / 0x1_0000_0000_0000 == (x / 0x100_0000_0000) / 0x100) by (bit_vector);
    assert(x / 0x100_0000_0000_0000 == (x / 0x1_0000_0000_0000) / 0x100) by (bit_vector);
    assert(x / 0x100_0000_0000_0000 < 0x100) by (bit_vector);
    let bytes = le_u64(x);
    assert(bytes[0] == x % 0x100);
    assert(bytes[1] == x / 0x100 % 0x100);
    assert(bytes[2] == x / 0x1_0000 % 0x100);
    assert(bytes[3] == x / 0x100_0000 % 0x100);
    assert(bytes[4] == x / 0x1_0000_0000 % 0x100);
    assert(bytes[5] == x / 0x100_0000_0000 % 0x100);
    assert(bytes[6] == x / 0x1_0000_0000_0000 % 0x100);
    assert(bytes[7] == x / 0x100_0000_0000_0000);
}

/// The bytes of a frame.
pub open spec fn frame(message: WireView) -> Seq<u8> {
    le_u16(message.c_slot) + le_u64(message.inner.len() as u64) + message.inner
}

/// The length of the message in the frame with which `raw` begins.
pub open spec fn frame_length(raw: Seq<u8>) -> nat {
    from_le_u64(raw.skip(2))
}

/// The frame with which `raw` begins, if it begins with one. What follows the frame does not
/// matter.
pub open spec fn framed(raw: Seq<u8>) -> Option<WireView> {
    if raw.len() >= 10 && frame_length(raw) <= raw.len() - 10 {
        Some(
            WireView {
                c_slot: from_le_u16(raw),
                inner: raw.subrange(10, (10 + frame_length(raw)) as int),
            },
        )
    } else {
        None
    }
}

/// The kinds of error of `bincode`. Nothing is known of what is in one.
#[verifier::external_type_specification]
#[verifier::external_body]
pub struct ExErrorKind(bincode::ErrorKind);

/// Calls `bincode::serialize` on a pair of a `u16` and bytes.
///
/// Claimed: it succeeds, and writes the integer in two bytes, the number of bytes in eight, both
/// little endian, and the bytes. It has no limit on size, and room for what it writes is set
/// aside at once, so that must not exceed what a vector can hold.
#[verifier::external_body]
fn bincode_serialize(c_slot: u16, inner: &Vec<u8>) -> (raw: Result<Vec<u8>, bincode::Error>)
    requires
        inner@.len() + 10 <= isize::MAX,
    ensures
        raw is Ok,
        raw->Ok_0@ == frame(WireView { c_slot, inner: inner@ }),
{
    bincode::serialize(&(c_slot, inner))
}

/// Calls `bincode::deserialize` for a pair of a `u16` and bytes.
///
/// Claimed: it reads back what `bincode::serialize` writes of such a pair, leaves alone whatever
/// follows, and fails if the bytes end too early, and only then.
#[verifier::external_body]
fn bincode_deserialize(raw: &[u8]) -> (pair: Result<(u16, Vec<u8>), bincode::Error>)
    ensures
        match pair {
            Ok((c_slot, inner)) => framed(raw@) == Some(WireView { c_slot, inner: inner@ }),
            Err(_) => framed(raw@) is None,
        },
{
    bincode::deserialize(raw)
}

/// The bytes of a frame.
pub fn encode(message: &WireMessage) -> (raw: Result<Vec<u8>, CodecError>)
    requires
        message.inner@.len() + 10 <= isize::MAX,
    ensures
        raw is Ok,
        raw->Ok_0@ == frame(message@),
{
    match bincode_serialize(message.c_slot, &message.inner) {
        Ok(raw) => Ok(raw),
        Err(_) => Err(CodecError::Encode),
    }
}

/// The frame with which the bytes begin.
pub fn decode(raw: &[u8]) -> (message: Result<WireMessage, CodecError>)
    ensures
        match message {
            Ok(message) => framed(raw@) == Some(message@),
            Err(error) => framed(raw@) is None && error == CodecError::Decode,
        },
{
    match bincode_deserialize(raw) {
        Ok((c_slot, inner)) => Ok(WireMessage { c_slot, inner }),
        Err(_) => Err(CodecError::Decode),
    }
}

/// What becomes of a packet.
pub enum Incoming {
    /// It holds a frame
    Message(WireMessage),
    /// It is not made of bytes, and of no interest
    Ignored,
    /// It is made of bytes that do not begin with a frame
    Undecodable,
}

/// Open a packet that came in on a web socket.
pub fn open_packet(packet: Packet) -> (incoming: Incoming)
    ensures
        match packet {
            Packet::Binary(raw) => match incoming {
                Incoming::Message(message) => framed(raw@) == Some(message@),
                Incoming::Undecodable => framed(raw@) is None,
                Incoming::Ignored => false,
            },
            Packet::Other => incoming is Ignored,
        },
{
    match packet {
        Packet::Binary(raw) => match decode(raw.as_slice()) {
            Ok(message) => Incoming::Message(message),
            Err(_) => Incoming::Undecodable,
        },
        Packet::Other => Incoming::Ignored,
    }
}

/// Reading a frame gives back what was written, whatever follows it.
pub proof fn decode_undoes_encode(message: WireView, rest: Seq<u8>)
    requires
        message.inner.len() <= u64::MAX,
    ensures
        framed(frame(message)) == Some(message),
        framed(frame(message) + rest) == Some(message),
{
    le_u16_round_trip(message.c_slot);
    le_u64_round_trip(message.inner.len() as u64);
    let slot = le_u16(message.c_slot);
    let length = le_u64(message.inner.len() as u64);
    assert forall|tail: Seq<u8>| #[trigger] framed(frame(message) + tail) == Some(message) by {
        let raw = frame(message) + tail;
        assert(forall|i: int| 0 <= i < 2 ==> raw[i] == slot[i]);
        assert(forall|i: int| 0 <= i < 8 ==> raw.skip(2)[i] == length[i]);
        assert(raw.subrange(10, (10 + message.inner.len()) as int) =~= message.inner);
    }
    assert(frame(message) + Seq::<u8>::empty() =~= frame(message));
    assert(framed(frame(message) + Seq::<u8>::empty()) == Some(message));
}

} // verus!

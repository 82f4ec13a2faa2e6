//! An endpoint that exchanges frames, with no regard to what is in them.
//!
//! A frame is a communication slot, a flag, and an encoded message. On the wire it is the slot in
//! two bytes, the flag in one, the length of the message in eight, the numbers little endian, and
//! the message.
use crate::message::{copy_bytes, Packet};
use crate::queue::{limited_new, limited_queued, limited_size, limited_try_pop, limited_try_push};
use crate::slots::{draw_slot, random_draw, settled, unused};
use crate::utils::{
    from_le_u16, from_le_u64, le_u16, le_u16_round_trip, le_u64, le_u64_round_trip, CodecError,
};
use vstd::prelude::*;

verus! {

#[derive(PartialEq, Debug)]
pub struct WireMessage {
    pub c_slot: u16,
    pub subscribe: bool,
    pub inner: Vec<u8>,
}

#[verifier::ext_equal]
pub struct WireView {
    pub c_slot: u16,
    pub subscribe: bool,
    pub inner: Seq<u8>,
}

impl View for WireMessage {
    type V = WireView;

    open spec fn view(&self) -> WireView {
        WireView { c_slot: self.c_slot, subscribe: self.subscribe, inner: self.inner@ }
    }
}

impl Clone for WireMessage {
    fn clone(&self) -> (copy: Self)
        ensures
            copy@ == self@,
    {
        WireMessage {
            c_slot: self.c_slot,
            subscribe: self.subscribe,
            inner: copy_bytes(&self.inner),
        }
    }
}

/// The bytes of a frame.
pub open spec fn frame(message: WireView) -> Seq<u8> {
    le_u16(message.c_slot) + seq![
        if message.subscribe {
            1u8
        } else {
            0u8
        },
    ] + le_u64(message.inner.len() as u64) + message.inner
}

/// The length of the message in the frame with which `raw` begins.
pub open spec fn frame_length(raw: Seq<u8>) -> nat {
    from_le_u64(raw.skip(3))
}

/// The frame with which `raw` begins, if it begins with one. What follows the frame does not
/// matter.
pub open spec fn framed(raw: Seq<u8>) -> Option<WireView> {
    if raw.len() >= 11 && raw[2] <= 1 && frame_length(raw) <= raw.len() - 11 {
        Some(
            WireView {
                c_slot: from_le_u16(raw),
                subscribe: raw[2] == 1,
                inner: raw.subrange(11, (11 + frame_length(raw)) as int),
            },
        )
    } else {
        None
    }
}

/// Calls `bincode::serialize` on a `u16`, a `bool` and bytes.
///
/// Claimed: it succeeds, and writes the integer in two bytes, the flag in one, the number of bytes
/// in eight, the numbers little endian, and the bytes. It has no limit on size, and room for what
/// it writes is set aside at once, so that must not exceed what a vector can hold.
#[verifier::external_body]
fn bincode_serialize(c_slot: u16, subscribe: bool, inner: &Vec<u8>) -> (raw: Result<
    Vec<u8>,
    bincode::Error,
>)
    requires
        inner@.len() + 11 <= isize::MAX,
    ensures
        raw is Ok,
        raw->Ok_0@ == frame(WireView { c_slot, subscribe, inner: inner@ }),
{
    bincode::serialize(&(c_slot, subscribe, inner))
}

/// Calls `bincode::deserialize` for a `u16`, a `bool` and bytes.
///
/// Claimed: it reads back what `bincode::serialize` writes of such a triple, and leaves alone
/// whatever follows. It fails if the bytes end too early or the flag is neither 0 nor 1, and only
/// then.
#[verifier::external_body]
fn bincode_deserialize(raw: &[u8]) -> (triple: Result<(u16, bool, Vec<u8>), bincode::Error>)
    ensures
        match triple {
            Ok((c_slot, subscribe, inner)) => framed(raw@) == Some(
                WireView { c_slot, subscribe, inner: inner@ },
            ),
            Err(_) => framed(raw@) is None,
        },
{
    bincode::deserialize(raw)
}

/// The bytes of a frame.
pub fn encode(message: &WireMessage) -> (raw: Result<Vec<u8>, CodecError>)
    requires
        message.inner@.len() + 11 <= isize::MAX,
    ensures
        raw is Ok,
        raw->Ok_0@ == frame(message@),
{
    match bincode_serialize(message.c_slot, message.subscribe, &message.inner) {
        Ok(raw) => Ok(raw),
        Err(_) => Err(CodecError::Encode),
    }
}

/// The frame with which the bytes begin.
pub fn decode(raw: &[u8]) -> (message: Result<WireMessage, CodecError>)
    ensures
        match message {
            Ok(message) => framed(raw@) == Some(message@),
            Err(error) => framed(raw@) is None && error == CodecError::Decode,
        },
{
    match bincode_deserialize(raw) {
        Ok((c_slot, subscribe, inner)) => Ok(WireMessage { c_slot, subscribe, inner }),
        Err(_) => Err(CodecError::Decode),
    }
}

/// Reading a frame gives back what was written, whatever follows it.
pub proof fn decode_undoes_encode(message: WireView, rest: Seq<u8>)
    requires
        message.inner.len() <= u64::MAX,
    ensures
        framed(frame(message)) == Some(message),
        framed(frame(message) + rest) == Some(message),
{
    le_u16_round_trip(message.c_slot);
    le_u64_round_trip(message.inner.len() as u64);
    let slot = le_u16(message.c_slot);
    let length = le_u64(message.inner.len() as u64);
    assert forall|tail: Seq<u8>| #[trigger] framed(frame(message) + tail) == Some(message) by {
        let raw = frame(message) + tail;
        assert(forall|i: int| 0 <= i < 2 ==> raw[i] == slot[i]);
        assert(forall|i: int| 0 <= i < 8 ==> raw.skip(3)[i] == length[i]);
        assert(raw.subrange(11, (11 + message.inner.len()) as int) =~= message.inner);
    }
    assert(frame(message) + Seq::<u8>::empty() =~= frame(message));
    assert(framed(frame(message) + Seq::<u8>::empty()) == Some(message));
}

/// The number of frames that can wait to be received.
pub const QUEUE_SIZE: usize = 16;

/// What became of a packet that came in.
#[derive(Clone, Copy, Debug, PartialEq, Eq, Structural)]
pub enum Received {
    /// Its frame waits to be received
    Queued,
    /// Too many frames wait. The frame is dropped
    Full,
    /// It is not made of bytes, and of no interest
    Ignored,
    /// It is made of bytes that do not begin with a frame
    Undecodable,
}

/// The state of an endpoint.
#[verifier::ext_equal]
pub struct TransportView {
    /// The communication slots that were handed out
    pub c_slots: Seq<u16>,
    /// The frames that wait to be received, the first to come in front
    pub rx: Seq<WireView>,
}

pub struct Transport {
    /// Incoming Messages
    rx: deadqueue::limited::Queue<WireMessage>,
    /// Map of known c_slots
    c_slots: Vec<u16>,
}

impl View for Transport {
    type V = TransportView;

    closed spec fn view(&self) -> TransportView {
        TransportView {
            c_slots: self.c_slots@,
            rx: limited_queued(&self.rx).map_values(|message: WireMessage| message@),
        }
    }
}

impl Transport {
    /// No slot was handed out twice, and no more frames wait than there is room for.
    pub closed spec fn wf(&self) -> bool {
        &&& self@.c_slots.no_duplicates()
        &&& limited_size(&self.rx) == QUEUE_SIZE
        &&& self@.rx.len() <= QUEUE_SIZE
    }

    /// What a well-formed endpoint keeps to.
    pub proof fn wf_holds(&self)
        requires
            self.wf(),
        ensures
            self@.c_slots.no_duplicates(),
            self@.rx.len() <= QUEUE_SIZE,
    {
    }

    /// An endpoint that has handed out no slot and received nothing.
    pub fn build() -> (transport: Self)
        ensures
            transport.wf(),
            transport@ == (TransportView { c_slots: Seq::empty(), rx: Seq::empty() }),
    {
        let transport = Transport { rx: limited_new(QUEUE_SIZE), c_slots: Vec::new() };
        assert(transport@ =~= (TransportView { c_slots: Seq::empty(), rx: Seq::empty() }));
        transport
    }

    /// Hand out a slot that was not handed out before. There is none if every draw hit one that
    /// was.
    pub fn allocate_slot(&mut self) -> (slot: Option<u16>)
        requires
            old(self).wf(),
        ensures
            final(self).wf(),
            settled(random_draw, unused(old(self)@.c_slots), slot),
            match slot {
                Some(slot) => {
                    &&& !old(self)@.c_slots.contains(slot)
                    &&& final(self)@ == (TransportView {
                        c_slots: old(self)@.c_slots.push(slot),
                        ..old(self)@
                    })
                },
                None => old(self)@.c_slots.len() > 0 && final(self)@ == old(self)@,
            },
    {
        draw_slot(&mut self.c_slots)
    }

    /// The frame that carries `inner`, from the given slot or else from a new one. There is none if
    /// no new slot was found.
    pub fn send(&mut self, c_slot: Option<u16>, inner: Vec<u8>, subscribe: bool) -> (message: Option<
        WireMessage,
    >)
        requires
            old(self).wf(),
        ensures
            final(self).wf(),
            match message {
                Some(message) => {
                    &&& message.inner == inner
                    &&& message.subscribe == subscribe
                    &&& match c_slot {
                        Some(c_slot) => {
                            &&& message.c_slot == c_slot
                            &&& final(self)@ == old(self)@
                        },
                        None => {
                            &&& settled(
                                random_draw,
                                unused(old(self)@.c_slots),
                                Some(message.c_slot),
                            )
                            &&& !old(self)@.c_slots.contains(message.c_slot)
                            &&& final(self)@ == (TransportView {
                                c_slots: old(self)@.c_slots.push(message.c_slot),
                                ..old(self)@
                            })
                        },
                    }
                },
                None => {
                    &&& c_slot is None
                    &&& settled(random_draw, unused(old(self)@.c_slots), None)
                    &&& old(self)@.c_slots.len() > 0
                    &&& final(self)@ == old(self)@
                },
            },
    {
        let slot = match c_slot {
            None => self.allocate_slot(),
            Some(slot) => Some(slot),
        };
        Self::message_from(slot, inner, subscribe)
    }

    /// The frame that carries `inner` from the slot that was found for it. There is none if none
    /// was found.
    pub fn message_from(slot: Option<u16>, inner: Vec<u8>, subscribe: bool) -> (message: Option<
        WireMessage,
    >)
        ensures
            message == (match slot {
                Some(c_slot) => Some(WireMessage { c_slot, subscribe, inner }),
                None => None,
            }),
    {
        match slot {
            Some(c_slot) => Some(WireMessage { c_slot, subscribe, inner }),
            None => None,
        }
    }

    /// A packet came in on the web socket.
    pub fn receive(&mut self, packet: Packet) -> (received: Received)
        requires
            old(self).wf(),
        ensures
            final(self).wf(),
            match packet {
                Packet::Binary(raw) => match framed(raw@) {
                    Some(message) => if old(self)@.rx.len() < QUEUE_SIZE {
                        &&& received == Received::Queued
                        &&& final(self)@ == (TransportView {
                            rx: old(self)@.rx.push(message),
                            ..old(self)@
                        })
                    } else {
                        &&& received == Received::Full
                        &&& final(self)@ == old(self)@
                    },
                    None => received == Received::Undecodable && final(self)@ == old(self)@,
                },
                Packet::Other => received == Received::Ignored && final(self)@ == old(self)@,
            },
    {
        match packet {
            Packet::Other => Received::Ignored,
            Packet::Binary(raw) => match decode(raw.as_slice()) {
                Err(_) => Received::Undecodable,
                Ok(message) => {
                    let ghost text = message@;
                    match limited_try_push(&mut self.rx, message) {
                        Ok(()) => {
                            assert(self@.rx =~= old(self)@.rx.push(text));
                            Received::Queued
                        },
                        Err(_) => Received::Full,
                    }
                },
            },
        }
    }

    /// Receive an incoming message. There is none if none waits.
    pub fn recv(&mut self) -> (message: Option<WireMessage>)
        requires
            old(self).wf(),
        ensures
            final(self).wf(),
            match message {
                Some(message) => {
                    &&& old(self)@.rx.len() > 0
                    &&& message@ == old(self)@.rx[0]
                    &&& final(self)@ == (TransportView { rx: old(self)@.rx.skip(1), ..old(self)@ })
                },
                None => old(self)@.rx.len() == 0 && final(self)@ == old(self)@,
            },
    {
        let message = limited_try_pop(&mut self.rx);
        assert(message is Some ==> self@.rx =~= old(self)@.rx.skip(1));
        message
    }
}

} // verus!

use boxcar::message::{Packet, WireMessage};
use boxcar::transport::{self, Received, Transport, QUEUE_SIZE};
use boxcar::utils::{self, CodecError, Incoming};

#[test]
fn frame_has_exact_bytes() {
    let message = WireMessage { c_slot: 0x0201, inner: vec![7, 8, 9] };
    let raw = utils::encode(&message).unwrap();
    assert_eq!(raw, vec![1, 2, 3, 0, 0, 0, 0, 0, 0, 0, 7, 8, 9]);
    assert_eq!(utils::decode(&raw), Ok(message));
}

#[test]
fn empty_message_has_a_frame() {
    let message = WireMessage { c_slot: u16::MAX, inner: vec![] };
    let raw = utils::encode(&message).unwrap();
    assert_eq!(raw, vec![255, 255, 0, 0, 0, 0, 0, 0, 0, 0]);
    assert_eq!(utils::decode(&raw), Ok(message));
}

#[test]
fn long_message_round_trip() {
    let inner: Vec<u8> = (0..70_000u32).map(|i| (i % 251) as u8).collect();
    let message = WireMessage { c_slot: 300, inner };
    let raw = utils::encode(&message).unwrap();
    assert_eq!(raw.len(), 70_010);
    assert_eq!(raw[2..10], [0x70, 0x11, 1, 0, 0, 0, 0, 0]);
    assert_eq!(utils::decode(&raw), Ok(message));
}

#[test]
fn what_follows_a_frame_does_not_matter() {
    let raw = vec![1, 0, 1, 0, 0, 0, 0, 0, 0, 0, 7, 8, 9];
    assert_eq!(utils::decode(&raw), Ok(WireMessage { c_slot: 1, inner: vec![7] }));
}

#[test]
fn short_frames_are_refused() {
    let raw = utils::encode(&WireMessage { c_slot: 5, inner: vec![1, 2] }).unwrap();
    for end in 0..raw.len() {
        assert_eq!(utils::decode(&raw[..end]), Err(CodecError::Decode));
    }
    let endless = vec![0, 0, 255, 255, 255, 255, 255, 255, 255, 255, 1];
    assert_eq!(utils::decode(&endless), Err(CodecError::Decode));
}

#[test]
fn packets_are_opened() {
    let raw = utils::encode(&WireMessage { c_slot: 5, inner: vec![1] }).unwrap();
    match utils::open_packet(Packet::Binary(raw)) {
        Incoming::Message(message) => {
            assert_eq!(message.c_slot, 5);
            assert_eq!(message.inner, vec![1]);
        }
        _ => panic!("the packet holds a frame"),
    }
    assert!(matches!(utils::open_packet(Packet::Other), Incoming::Ignored));
    assert!(matches!(utils::open_packet(Packet::Binary(vec![1])), Incoming::Undecodable));
}

#[test]
fn transport_frame_has_exact_bytes() {
    let message = transport::WireMessage { c_slot: 0x0201, subscribe: true, inner: vec![7] };
    let raw = transport::encode(&message).unwrap();
    assert_eq!(raw, vec![1, 2, 1, 1, 0, 0, 0, 0, 0, 0, 0, 7]);
    assert_eq!(transport::decode(&raw), Ok(message));

    let message = transport::WireMessage { c_slot: 3, subscribe: false, inner: vec![] };
    let raw = transport::encode(&message).unwrap();
    assert_eq!(raw, vec![3, 0, 0, 0, 0, 0, 0, 0, 0, 0, 0]);
    assert_eq!(transport::decode(&raw), Ok(message));
}

#[test]
fn transport_frames_with_a_bad_flag_are_refused() {
    let raw = vec![3, 0, 2, 0, 0, 0, 0, 0, 0, 0, 0];
    assert_eq!(transport::decode(&raw), Err(CodecError::Decode));
    assert_eq!(transport::decode(&[3, 0, 1]), Err(CodecError::Decode));
    let longer = vec![3, 0, 1, 1, 0, 0, 0, 0, 0, 0, 0, 9, 9];
    let message = transport::WireMessage { c_slot: 3, subscribe: true, inner: vec![9] };
    assert_eq!(transport::decode(&longer), Ok(message));
}

fn packet(c_slot: u16) -> Packet {
    let message = transport::WireMessage { c_slot, subscribe: false, inner: vec![] };
    Packet::Binary(transport::encode(&message).unwrap())
}

#[test]
fn transport_receives_in_order() {
    let mut endpoint = Transport::build();
    assert_eq!(endpoint.recv(), None);
    assert_eq!(endpoint.receive(packet(1)), Received::Queued);
    assert_eq!(endpoint.receive(packet(2)), Received::Queued);
    assert_eq!(endpoint.recv().unwrap().c_slot, 1);
    assert_eq!(endpoint.receive(packet(3)), Received::Queued);
    assert_eq!(endpoint.recv().unwrap().c_slot, 2);
    assert_eq!(endpoint.recv().unwrap().c_slot, 3);
    assert_eq!(endpoint.recv(), None);
}

#[test]
fn transport_drops_what_it_has_no_room_for() {
    let mut endpoint = Transport::build();
    assert_eq!(QUEUE_SIZE, 16);
    for i in 0..16 {
        assert_eq!(endpoint.receive(packet(i)), Received::Queued);
    }
    assert_eq!(endpoint.receive(packet(16)), Received::Full);
    assert_eq!(endpoint.recv().unwrap().c_slot, 0);
    assert_eq!(endpoint.receive(packet(17)), Received::Queued);
    for i in 1..16 {
        assert_eq!(endpoint.recv().unwrap().c_slot, i);
    }
    assert_eq!(endpoint.recv().unwrap().c_slot, 17);
    assert_eq!(endpoint.recv(), None);
}

#[test]
fn transport_ignores_other_packets() {
    let mut endpoint = Transport::build();
    assert_eq!(endpoint.receive(Packet::Other), Received::Ignored);
    assert_eq!(endpoint.receive(Packet::Binary(vec![1, 2, 3])), Received::Undecodable);
    assert_eq!(endpoint.recv(), None);
}

#[test]
fn transport_sends_from_the_given_slot() {
    let mut endpoint = Transport::build();
    let message = endpoint.send(Some(7), vec![1, 2], true).unwrap();
    assert_eq!(message, transport::WireMessage { c_slot: 7, subscribe: true, inner: vec![1, 2] });
    let message = endpoint.send(Some(7), vec![], false).unwrap();
    assert_eq!(message, transport::WireMessage { c_slot: 7, subscribe: false, inner: vec![] });
}

#[test]
fn transport_frames_carry_the_slot_that_was_found() {
    let message = Transport::message_from(Some(7), vec![1], true).unwrap();
    assert_eq!(message, transport::WireMessage { c_slot: 7, subscribe: true, inner: vec![1] });
    assert_eq!(Transport::message_from(None, vec![1], true), None);
}

#[test]
fn transport_slots_differ() {
    let mut endpoint = Transport::build();
    let mut slots: Vec<u16> = Vec::new();
    for i in 0..300 {
        let slot = if i % 2 == 0 {
            endpoint.allocate_slot().unwrap()
        } else {
            endpoint.send(None, vec![], false).unwrap().c_slot
        };
        assert!(!slots.contains(&slot));
        slots.push(slot);
    }
    // they are drawn at random, not counted up
    assert!(slots.windows(2).any(|pair| pair[0] > pair[1]));
}

#[test]
fn one_endpoint_receives_what_another_sends() {
    let mut sender = Transport::build();
    let mut receiver = Transport::build();
    let sent = sender.send(None, vec![1, 2, 3], true).unwrap();
    let raw = transport::encode(&sent).unwrap();
    assert_eq!(receiver.receive(Packet::Binary(raw)), Received::Queued);
    assert_eq!(receiver.recv(), Some(sent));
}

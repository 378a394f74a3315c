use entanglement_rs::echo::{echo_route, EchoBook, EchoEvent, EchoReply, EchoTally};
use entanglement_rs::packet::{EntEndpoint, EntPacketHeader};

fn header() -> EntPacketHeader {
    EntPacketHeader {
        magic: 1,
        version: 2,
        flags: 3,
        shard_id: 4,
        channel_id: 5,
        sequence: 6,
        ack: 7,
        ack_bitmap: 8,
        channel_sequence: 9,
        payload_size: 3,
    }
}

fn sender() -> EntEndpoint {
    EntEndpoint { address: 0x0100_007f, port: 9 }
}

#[test]
fn echoes_go_back_on_the_same_channel() {
    assert_eq!(echo_route(&header(), sender()), (5, sender(), 0));
}

#[test]
fn a_message_is_echoed_and_counted() {
    let mut book = EchoBook::new();
    let header = header();
    let payload = [1u8, 2, 3];
    let event = EchoEvent::Data { header: &header, payload: &payload, sender: sender() };
    for code in [3, -5, 0] {
        match book.receive(&event) {
            Some(EchoReply::Message { payload: p, channel_id, dest, flags }) => {
                assert_eq!(p, payload);
                assert_eq!((channel_id, dest, flags), (5, sender(), 0));
            }
            other => panic!("{:?}", other),
        }
        book.settle(&event, Some(code));
    }
    assert_eq!(book.tally, EchoTally { received: 3, echoed: 2 });
}

#[test]
fn a_packet_of_messages_is_echoed_whole() {
    let mut book = EchoBook::new();
    let header = header();
    let payload = [7u8; 20];
    let event =
        EchoEvent::Coalesced { header: &header, payload: &payload, count: 6, sender: sender() };
    match book.receive(&event) {
        Some(EchoReply::Packet { header: h, payload: p, dest }) => {
            assert_eq!(h, header.to_raw());
            assert_eq!(p, payload);
            assert_eq!(dest, sender());
        }
        other => panic!("{:?}", other),
    }
    book.settle(&event, Some(0));
    assert_eq!(book.tally, EchoTally { received: 6, echoed: 6 });
    book.receive(&event);
    book.settle(&event, Some(-1));
    assert_eq!(book.tally, EchoTally { received: 12, echoed: 6 });
}

#[test]
fn reported_buffers_are_freed_once() {
    let mut book = EchoBook::new();
    let a = book.allocate(100);
    let b = book.allocate(200);
    let c = book.allocate(300);
    assert!(a != 0 && b != 0 && c != 0);
    assert_eq!(book.buffers.len(), 3);

    let payload = [9u8; 4];
    let complete =
        EchoEvent::Complete { addr: b, payload: &payload, channel_id: 2, sender: sender() };
    match book.receive(&complete) {
        Some(EchoReply::Message { payload: p, channel_id, dest, flags }) => {
            assert_eq!(p, payload);
            assert_eq!((channel_id, dest, flags), (2, sender(), 0));
        }
        other => panic!("{:?}", other),
    }
    assert_eq!(book.buffers.len(), 3);
    book.settle(&complete, Some(-2));
    assert_eq!(book.buffers.len(), 2);
    assert_eq!(book.tally, EchoTally { received: 1, echoed: 0 });

    let failed = EchoEvent::Failed { addr: a };
    assert!(book.receive(&failed).is_none());
    book.settle(&failed, None);
    assert_eq!(book.buffers.len(), 1);
    assert_eq!(book.tally, EchoTally { received: 1, echoed: 0 });
    book.settle(&failed, None);
    assert_eq!(book.buffers.len(), 1);
}

#[test]
fn a_queued_echo_is_not_counted_yet() {
    let mut book = EchoBook::new();
    let header = header();
    let event = EchoEvent::Data { header: &header, payload: &[], sender: sender() };
    assert!(book.receive(&event).is_some());
    book.settle(&event, None);
    assert_eq!(book.tally, EchoTally { received: 1, echoed: 0 });
}

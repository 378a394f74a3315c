use entanglement_rs::soak::{
    delivery, drain_is_done, echo_order, soak_payload, stream_channel, stream_is_fragmented,
    stream_name, Delivery, EchoOrder, SoakBoard, SoakMsg, StreamStats,
    CH_ORDERED, CH_RELIABLE, CH_UNRELIABLE, DRAIN_LIMIT_NANOS, FRAG_SIZE, NUM_STREAMS, SIMPLE_SIZE,
};
use entanglement_rs::wire::{append_word, read_word, ByteOrder};

const LE: ByteOrder = ByteOrder::LeastFirst;
const BE: ByteOrder = ByteOrder::MostFirst;

#[test]
fn words_are_read_back() {
    for x in [0u32, 1, 255, 256, 0x1234_5678, u32::MAX] {
        let mut out = vec![7u8];
        append_word(&mut out, x, LE);
        append_word(&mut out, x, BE);
        assert_eq!(out[1..5], x.to_le_bytes());
        assert_eq!(out[5..], x.to_be_bytes());
        out.push(9);
        assert_eq!(read_word(&out, 1, LE), x);
        assert_eq!(read_word(&out, 5, BE), x);
    }
}

#[test]
fn streams() {
    let channels = [CH_UNRELIABLE, CH_RELIABLE, CH_ORDERED, CH_UNRELIABLE, CH_RELIABLE, CH_ORDERED];
    let names = [
        "simple-unreliable", "simple-reliable", "simple-ordered",
        "frag-unreliable", "frag-reliable", "frag-ordered",
    ];
    for i in 0..NUM_STREAMS {
        assert_eq!(stream_channel(i), channels[i]);
        assert_eq!(stream_name(i), names[i]);
        assert_eq!(stream_is_fragmented(i), i >= 3);
    }
}

#[test]
fn messages_are_read_back() {
    let msg = SoakMsg { msg_id: 0xDEAD_BEEF, total_expected: 17, stream_idx: 4 };
    let mut bytes = msg.encode(LE);
    assert_eq!(bytes, vec![0xEF, 0xBE, 0xAD, 0xDE, 17, 0, 0, 0, 4]);
    assert_eq!(SoakMsg::decode(&bytes, LE), Some(msg));
    assert_eq!(SoakMsg::decode(&bytes[..8], LE), None);
    bytes.push(99);
    assert_eq!(SoakMsg::decode(&bytes, LE), Some(msg));
}

#[test]
fn payloads_of_both_sizes() {
    let short = soak_payload(1, 300, LE);
    assert_eq!(short.len(), SIMPLE_SIZE);
    assert_eq!(
        SoakMsg::decode(&short, LE),
        Some(SoakMsg { msg_id: 300, total_expected: 0, stream_idx: 1 })
    );
    let long = soak_payload(5, 7, LE);
    assert_eq!(long.len(), FRAG_SIZE);
    assert_eq!(
        SoakMsg::decode(&long, LE),
        Some(SoakMsg { msg_id: 7, total_expected: 0, stream_idx: 5 })
    );
    for i in SIMPLE_SIZE..FRAG_SIZE {
        assert_eq!(long[i], (i & 0xFF) as u8);
    }
}

#[test]
fn order_violations_are_counted() {
    let mut s = StreamStats { sent: 0, echoes: 0, last_echo_id: 0, violations: 0 };
    for id in [1, 2, 5, 5, 3, 4, 0, 1] {
        s.record_echo(id, true);
    }
    assert_eq!((s.echoes, s.violations, s.last_echo_id), (8, 3, 1));
    let mut s = StreamStats { sent: 0, echoes: u64::MAX, last_echo_id: 9, violations: 0 };
    s.record_echo(1, false);
    assert_eq!((s.echoes, s.violations, s.last_echo_id), (0, 0, 9));
}

#[test]
fn echoes_count_for_their_stream() {
    let mut board = SoakBoard::new();
    for stream in 0..NUM_STREAMS {
        board.record_echo(&soak_payload(stream, 1, LE), LE);
    }
    board.record_echo(&soak_payload(2, 1, LE), LE);
    board.record_echo(&soak_payload(1, 1, LE), LE);
    board.record_echo(&[0; 8], LE);
    let stranger = SoakMsg { msg_id: 1, total_expected: 0, stream_idx: 6 };
    board.record_echo(&stranger.encode(LE), LE);
    let echoes: Vec<u64> = board.streams.iter().map(|s| s.echoes).collect();
    assert_eq!(echoes, vec![1, 2, 2, 1, 1, 1]);
    let violations: Vec<u64> = board.streams.iter().map(|s| s.violations).collect();
    assert_eq!(violations, vec![0, 0, 1, 0, 0, 0]);
    assert_eq!(board.total_echoes(), 8);
}

#[test]
fn verdicts() {
    assert_eq!(delivery(0, 0), Delivery::Skip);
    assert_eq!(delivery(0, 3), Delivery::Skip);
    assert_eq!(delivery(5, 5), Delivery::Pass);
    assert_eq!(delivery(5, 3), Delivery::Fail(2));
    assert_eq!(echo_order(0), EchoOrder::Pass);
    assert_eq!(echo_order(4), EchoOrder::Warn(4));

    let mut board = SoakBoard::new();
    assert!(board.has_passed());
    assert!(board.record_sent(0, 9));
    assert!(board.has_passed());
    assert!(board.record_sent(4, 0));
    assert!(!board.has_passed());
    board.record_echo(&soak_payload(4, 1, LE), LE);
    assert!(board.has_passed());
    assert!(!board.record_sent(4, -1));
    assert_eq!(board.streams[4].sent, 1);
    assert!(board.has_passed());
}

#[test]
fn draining() {
    assert!(drain_is_done(5, 5, 0));
    assert!(!drain_is_done(6, 5, DRAIN_LIMIT_NANOS));
    assert!(drain_is_done(6, 5, DRAIN_LIMIT_NANOS + 1));
}

#[test]
fn messages_keep_the_order_of_the_machine() {
    let payload = soak_payload(5, 0x0102_0304, BE);
    assert_eq!(payload[..9], [1, 2, 3, 4, 0, 0, 0, 0, 5]);
    assert_eq!(soak_payload(5, 0x0102_0304, LE)[..9], [4, 3, 2, 1, 0, 0, 0, 0, 5]);
    let msg = SoakMsg { msg_id: 0x0102_0304, total_expected: 0, stream_idx: 5 };
    assert_eq!(SoakMsg::decode(&payload, BE), Some(msg));
    let mut board = SoakBoard::new();
    board.record_echo(&payload, BE);
    assert_eq!(board.streams[5].echoes, 1);
    assert_eq!(board.streams[5].last_echo_id, 0x0102_0304);
}

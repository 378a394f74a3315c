use entanglement_rs::ctext::{
    c_length, callback_address, event_address, fits_c_string, text_in_buffer,
};
use entanglement_rs::packet::{
    EntCongestionInfo, EntEndpoint, EntLostPacketInfo, EntPacketHeader, RawCongestionInfo,
    RawEndpoint, RawLostPacketInfo, RawPacketHeader,
};

fn raw_header() -> RawPacketHeader {
    RawPacketHeader {
        magic: 0xE47A,
        version: 3,
        flags: 5,
        shard_id: 12,
        channel_id: 2,
        sequence: 1 << 40,
        ack: 1 << 33,
        ack_bitmap: 0xF0F0,
        channel_sequence: 99,
        payload_size: 1200,
    }
}

#[test]
fn endpoints_survive_both_ways() {
    let ep = EntEndpoint { address: 0x7F00_0001, port: 9876 };
    let raw = RawEndpoint::from(ep);
    assert_eq!((raw.address, raw.port), (0x7F00_0001, 9876));
    assert_eq!(EntEndpoint::from(raw), ep);
}

#[test]
fn headers_survive_both_ways() {
    let raw = raw_header();
    let header = EntPacketHeader::from(&raw);
    assert_eq!(header.magic, 0xE47A);
    assert_eq!(header.version, 3);
    assert_eq!(header.flags, 5);
    assert_eq!(header.shard_id, 12);
    assert_eq!(header.channel_id, 2);
    assert_eq!(header.sequence, 1 << 40);
    assert_eq!(header.ack, 1 << 33);
    assert_eq!(header.ack_bitmap, 0xF0F0);
    assert_eq!(header.channel_sequence, 99);
    assert_eq!(header.payload_size, 1200);
    assert_eq!(header.to_raw(), raw);
}

#[test]
fn congestion_figures_read_the_flag() {
    let mut raw = RawCongestionInfo {
        cwnd: 10,
        in_flight: 4,
        ssthresh: 64,
        pacing_interval_us: -5,
        in_slow_start: 1,
    };
    let info = EntCongestionInfo::from(raw);
    assert_eq!(
        info,
        EntCongestionInfo {
            cwnd: 10,
            in_flight: 4,
            ssthresh: 64,
            pacing_interval_us: -5,
            in_slow_start: true,
        }
    );
    raw.in_slow_start = -7;
    assert!(EntCongestionInfo::from(raw).in_slow_start);
    raw.in_slow_start = 0;
    assert!(!EntCongestionInfo::from(raw).in_slow_start);
}

#[test]
fn lost_packets_keep_their_fields() {
    let raw = RawLostPacketInfo {
        sequence: 1,
        flags: 2,
        channel_id: 3,
        shard_id: 4,
        payload_size: 5,
        channel_sequence: 6,
        message_id: 7,
        fragment_index: 8,
        fragment_count: 9,
    };
    let info = EntLostPacketInfo::from(&raw);
    assert_eq!(
        info,
        EntLostPacketInfo {
            sequence: 1,
            flags: 2,
            channel_id: 3,
            shard_id: 4,
            payload_size: 5,
            channel_sequence: 6,
            message_id: 7,
            fragment_index: 8,
            fragment_count: 9,
        }
    );
}

#[test]
fn buffers_hold_text_up_to_the_zero_byte() {
    let mut buf = [0u8; 16];
    buf[..9].copy_from_slice(b"127.0.0.1");
    assert_eq!(c_length(&buf), 9);
    assert_eq!(text_in_buffer(&buf), "127.0.0.1");
    let full = [b'x'; 16];
    assert_eq!(c_length(&full), 16);
    assert_eq!(text_in_buffer(&full), "xxxxxxxxxxxxxxxx");
    assert_eq!(text_in_buffer(&[0u8; 16]), "");
    assert_eq!(text_in_buffer(b"a\0b\0"), "a");
    assert_eq!(text_in_buffer(b"a\xFFb\0"), "a\u{FFFD}b");
}

#[test]
fn addresses_of_events_are_lossy() {
    assert_eq!(event_address(None), "");
    assert_eq!(event_address(Some(b"10.0.0.1")), "10.0.0.1");
    assert_eq!(event_address(Some("é".as_bytes())), "é");
    assert_eq!(event_address(Some(b"\xC3x")), "\u{FFFD}x");
}

#[test]
fn addresses_of_callbacks_are_strict() {
    assert_eq!(callback_address(None), "");
    assert_eq!(callback_address(Some(b"10.0.0.1")), "10.0.0.1");
    assert_eq!(callback_address(Some("é".as_bytes())), "é");
    assert_eq!(callback_address(Some(b"\xC3x")), "");
    // A surrogate and an overlong encoding are not valid.
    assert_eq!(callback_address(Some(b"\xED\xA0\x80")), "");
    assert_eq!(callback_address(Some(b"\xC0\x80")), "");
}

#[test]
fn c_strings_hold_no_zero() {
    assert!(fits_c_string(""));
    assert!(fits_c_string("0.0.0.0"));
    assert!(!fits_c_string("0.0\0.0"));
    assert!(!fits_c_string("\0"));
}

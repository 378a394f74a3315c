use entanglement_rs::stress::{
    average_rate, batch_end, delivery_rate, progress_is_due, send_interval_micros, stagger_micros,
    stress_totals, target_rate, ClientFigures, Handshake, StressMsg, StressRoster, StressTotals,
};
use entanglement_rs::wire::ByteOrder;

#[test]
fn messages() {
    let msg = StressMsg { client_index: 0x0102_0304, sequence: 5 };
    assert_eq!(msg.encode(ByteOrder::LeastFirst), vec![4, 3, 2, 1, 5, 0, 0, 0]);
    assert_eq!(msg.encode(ByteOrder::MostFirst), vec![1, 2, 3, 4, 0, 0, 0, 5]);
}

#[test]
fn rates_and_intervals() {
    assert_eq!(send_interval_micros(10), 100_000);
    assert_eq!(send_interval_micros(3), 333_333);
    assert_eq!(send_interval_micros(0), 1_000_000);
    assert_eq!(send_interval_micros(2_000_000), 0);
    assert_eq!(target_rate(100, 10), 1000);
    assert_eq!(average_rate(100, 0), 100);
    assert_eq!(average_rate(100, 30), 3);
}

#[test]
fn staggering() {
    let mut last = 0;
    for i in 0..100 {
        let s = stagger_micros(100_000, i, 100);
        assert_eq!(s, i * 1000);
        assert!(s >= last && s < 100_000);
        last = s;
    }
    assert_eq!(stagger_micros(100_000, 1, 3), 33_333);
    assert_eq!(stagger_micros(100_000, 0, 0), 0);
}

#[test]
fn batches() {
    assert_eq!(batch_end(0, 100), 50);
    assert_eq!(batch_end(50, 100), 100);
    assert_eq!(batch_end(50, 70), 70);
    assert!(!progress_is_due(false, 0, 200));
    assert!(progress_is_due(false, 50, 200));
    assert!(progress_is_due(true, 0, 200));
    assert!(progress_is_due(false, 200, 220));
    assert!(progress_is_due(false, 200, 250));
    assert!(!progress_is_due(false, 200, 251));
}

#[test]
fn rosters_count_every_attempt() {
    let mut r = StressRoster::new();
    r.admit_client(Handshake::Channel(5));
    r.admit_client(Handshake::Refused);
    r.admit_client(Handshake::TimedOut);
    r.admit_client(Handshake::Channel(-9));
    r.admit_client(Handshake::Channel(0));
    assert_eq!((r.connect_ok, r.connect_fail, r.slots.len()), (2, 3, 5));
    let ids: Vec<i32> = r.slots.iter().map(|s| s.channel_id).collect();
    assert_eq!(ids, vec![5, -1, -1, -1, 0]);
    r.schedule(100_000);
    let first: Vec<u128> = r.slots.iter().map(|s| s.next_send).collect();
    assert_eq!(first, vec![0, 20_000_000, 40_000_000, 60_000_000, 80_000_000]);
    assert_eq!((r.connect_ok, r.connect_fail), (2, 3));
}

#[test]
fn turns() {
    let mut r = StressRoster::new();
    r.admit_client(Handshake::Channel(258));
    let slot = &mut r.slots[0];
    slot.next_send = 10;
    assert!(!slot.is_due(9));
    assert_eq!(slot.take_turn(7, 9, 100, true), None);
    assert_eq!(slot.next_send, 10);
    assert!(slot.is_due(10));
    let (msg, channel) = slot.take_turn(7, 10, 100, true).unwrap();
    assert_eq!(msg, StressMsg { client_index: 7, sequence: 0 });
    assert_eq!(channel, 2);
    assert_eq!(slot.next_send, 110);
    assert!(slot.record_sent(8));
    assert!(!slot.record_sent(-5));
    assert_eq!(slot.sent, 1);
    assert_eq!(slot.take_turn(7, 200, 100, false), None);
    assert_eq!(slot.next_send, 300);
    let (msg, _) = slot.take_turn(7, 300, 100, true).unwrap();
    assert_eq!(msg, StressMsg { client_index: 7, sequence: 1 });
}

#[test]
fn totals_leave_out_unconnected_clients() {
    let f = |connected, alive, sent, echoes, losses| ClientFigures {
        connected,
        alive,
        sent,
        echoes,
        losses,
    };
    let figures = vec![
        f(true, true, 10, 9, 1),
        f(false, true, 100, 100, 100),
        f(true, false, u32::MAX, 5, 2),
    ];
    assert_eq!(
        stress_totals(&figures),
        StressTotals { sent: 10 + u32::MAX as u64, echoes: 14, losses: 3, still_connected: 1 }
    );
    assert_eq!(
        stress_totals(&Vec::new()),
        StressTotals { sent: 0, echoes: 0, losses: 0, still_connected: 0 }
    );
}

#[test]
fn delivery_rates() {
    assert_eq!(delivery_rate(0, 0), "0.0%");
    assert_eq!(delivery_rate(0, 3), "0.0%");
    assert_eq!(delivery_rate(1000, 1), "99.9%");
    assert_eq!(delivery_rate(5, 0), "100.0%");
    assert_eq!(delivery_rate(5, 5), "0.0%");
}

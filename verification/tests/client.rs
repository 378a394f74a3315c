use entanglement_rs::client::{
    spawn_client, ClientAction, ClientBridge, ClientCommand, ClientEvent, ClientFailure,
    ClientInput, ClientPhase,
};
use entanglement_rs::loopback::{
    client_saw_connect, same_bytes, server_saw_connect, server_saw_data, server_saw_disconnect,
    LoopbackTally,
};
use entanglement_rs::packet::{EntEndpoint, RawEndpoint, RawPacketHeader};
use entanglement_rs::server::ServerEvent;

fn connected() -> ClientBridge {
    let mut b = ClientBridge::new("127.0.0.1", 19876);
    assert!(matches!(
        b.step(ClientInput::Done),
        ClientAction::Create { server_address, server_port: 19876 } if server_address == "127.0.0.1"
    ));
    assert!(matches!(b.step(ClientInput::Created(true)), ClientAction::RegisterDefaultChannels));
    assert!(matches!(b.step(ClientInput::Done), ClientAction::InstallCallbacks));
    assert!(matches!(b.step(ClientInput::Done), ClientAction::Connect));
    assert!(matches!(b.step(ClientInput::Connected(0)), ClientAction::Receive));
    b
}

fn header() -> RawPacketHeader {
    RawPacketHeader {
        magic: 1,
        version: 2,
        flags: 3,
        shard_id: 4,
        channel_id: 5,
        sequence: 6,
        ack: 7,
        ack_bitmap: 8,
        channel_sequence: 9,
        payload_size: 10,
    }
}

#[test]
fn a_client_ticks() {
    let mut b = connected();
    assert!(matches!(b.step(ClientInput::Received(None)), ClientAction::Poll(256)));
    assert!(matches!(b.step(ClientInput::Done), ClientAction::Update));
    assert!(matches!(b.step(ClientInput::Done), ClientAction::Sleep(33_000_000)));
    assert!(matches!(b.step(ClientInput::Done), ClientAction::Receive));
    assert_eq!(b.phase, ClientPhase::Receiving);
}

#[test]
fn a_client_carries_out_commands_and_stops() {
    let mut b = connected();
    let send = ClientCommand::Send { data: vec![9; 4], channel_id: 1, flags: 0 };
    assert!(matches!(
        b.step(ClientInput::Received(Some(send))),
        ClientAction::Send { data, channel_id: 1, flags: 0 } if data == vec![9; 4]
    ));
    assert!(matches!(b.step(ClientInput::Done), ClientAction::Receive));
    assert!(matches!(
        b.step(ClientInput::Received(Some(ClientCommand::Disconnect))),
        ClientAction::Disconnect
    ));
    assert!(matches!(b.step(ClientInput::Done), ClientAction::Receive));
    assert!(matches!(
        b.step(ClientInput::Received(Some(ClientCommand::Stop))),
        ClientAction::Stop
    ));
    assert!(matches!(b.step(ClientInput::Done), ClientAction::ReleaseCallbacks));
    assert!(matches!(b.step(ClientInput::Done), ClientAction::Exit));
    assert_eq!(b.phase, ClientPhase::Finished);
}

#[test]
fn a_refused_client_exits() {
    let mut b = ClientBridge::new("127.0.0.1", 1);
    b.step(ClientInput::Done);
    b.step(ClientInput::Created(true));
    b.step(ClientInput::Done);
    b.step(ClientInput::Done);
    assert!(matches!(b.step(ClientInput::Connected(-3)), ClientAction::ReleaseCallbacks));
    assert!(matches!(b.step(ClientInput::Done), ClientAction::Exit));
    assert_eq!(b.phase, ClientPhase::Finished);
}

#[test]
fn client_failures() {
    let mut b = ClientBridge::new("a\0b", 1);
    assert!(matches!(
        b.step(ClientInput::Done),
        ClientAction::Abort(ClientFailure::InvalidAddress)
    ));
    let mut b = ClientBridge::new("127.0.0.1", 1);
    b.step(ClientInput::Done);
    assert!(matches!(
        b.step(ClientInput::Created(false)),
        ClientAction::Abort(ClientFailure::NoClient)
    ));
    assert_eq!(b.phase, ClientPhase::Failed);
}

#[test]
fn client_channels() {
    let mut s = spawn_client("127.0.0.1", 19876);
    assert_eq!(s.handle.tx.max_capacity(), 1024);
    assert_eq!(s.commands.max_capacity(), 1024);
    assert_eq!(s.events.max_capacity(), 1024);
    assert_eq!(s.handle.rx.max_capacity(), 1024);
    s.bridge = connected();
    assert!(matches!(s.bridge.receive(&mut s.commands), ClientAction::Poll(256)));
    s.bridge = connected();
    assert!(s.handle.tx.try_send(ClientCommand::Stop).is_ok());
    assert!(matches!(s.bridge.receive(&mut s.commands), ClientAction::Stop));
    assert!(s.events.try_send(ClientEvent::Connected).is_ok());
    assert!(matches!(s.handle.rx.try_recv(), Ok(ClientEvent::Connected)));
}

#[test]
fn client_data_events() {
    match ClientEvent::on_data_received(&header(), &[1, 2, 3]) {
        ClientEvent::DataReceived { header: h, payload } => {
            assert_eq!(h.to_raw(), header());
            assert_eq!(payload, vec![1, 2, 3]);
        }
        other => panic!("{:?}", other),
    }
}

#[test]
fn the_loopback_steps() {
    let key = RawEndpoint { address: 1, port: 2 };
    let text = b"Hello from Rust client!";
    assert!(client_saw_connect(&Some(ClientEvent::Connected)));
    assert!(!client_saw_connect(&Some(ClientEvent::Disconnected)));
    assert!(!client_saw_connect(&None));
    let up = Some(ServerEvent::on_client_connected(key, Some(b"127.0.0.1"), 2));
    let down = Some(ServerEvent::on_client_disconnected(key, Some(b"127.0.0.1"), 2));
    let data = Some(ServerEvent::on_client_data(&header(), text, key));
    assert!(server_saw_connect(&up) && !server_saw_connect(&down) && !server_saw_connect(&None));
    assert!(server_saw_disconnect(&down) && !server_saw_disconnect(&data));
    assert!(server_saw_data(&data, text));
    assert!(!server_saw_data(&data, b"Hello from Rust client?"));
    assert!(!server_saw_data(&data, b"Hello"));
    assert!(!server_saw_data(&up, text));
    assert!(same_bytes(&[], &[]) && same_bytes(&[1, 2], &[1, 2]));
    assert!(!same_bytes(&[1], &[2]) && !same_bytes(&[1], &[1, 1]));
    assert_eq!(EntEndpoint::from(key), EntEndpoint { address: 1, port: 2 });
}

#[test]
fn the_loopback_tally() {
    let mut t = LoopbackTally::new();
    for ok in [true, true, true, true] {
        t.record(ok);
    }
    assert_eq!((t.passed, t.failed, t.total()), (4, 0, 4));
    assert!(t.all_passed());
    t.record(false);
    assert_eq!((t.passed, t.failed, t.total()), (4, 1, 5));
    assert!(!t.all_passed());
}

use entanglement_rs::config::SpawnConfig;
use entanglement_rs::error::{EntError, ErrorCodes};
use entanglement_rs::packet::{EntEndpoint, RawEndpoint, RawPacketHeader};
use entanglement_rs::server::{
    spawn_server, spawn_server_with_config, ServerAction, ServerBridge, ServerCommand, ServerEvent,
    ServerFailure, ServerInput, ServerPhase,
};

fn codes() -> ErrorCodes {
    ErrorCodes {
        socket: -1,
        not_connected: -2,
        connection_denied: -3,
        connection_timeout: -4,
        backpressured: -5,
        payload_too_large: -6,
        invalid_argument: -7,
        channel_in_use: -8,
        channel_not_found: -9,
        channel_slots_full: -10,
        channel_rejected: -11,
        channel_timeout: -12,
        pool_full: -13,
        duplicate_packet: -14,
        already_started: -15,
    }
}

fn endpoint() -> EntEndpoint {
    EntEndpoint { address: 0x0100_007F, port: 5555 }
}

fn running() -> ServerBridge {
    let mut b = ServerBridge::new("0.0.0.0", 9876, 4, SpawnConfig::default(), codes());
    assert!(matches!(
        b.step(ServerInput::Done),
        ServerAction::Create { port: 9876, bind_address } if bind_address == "0.0.0.0"
    ));
    assert!(matches!(b.step(ServerInput::Created(true)), ServerAction::SetWorkerCount(4)));
    assert!(matches!(b.step(ServerInput::Done), ServerAction::RegisterDefaultChannels));
    assert!(matches!(b.step(ServerInput::Done), ServerAction::InstallCallbacks));
    assert!(matches!(b.step(ServerInput::Done), ServerAction::Start));
    assert!(matches!(b.step(ServerInput::Started(0)), ServerAction::Receive));
    b
}

#[test]
fn a_server_is_set_up_in_order() {
    let b = running();
    assert_eq!(b.phase, ServerPhase::Receiving);
}

#[test]
fn a_tick_without_commands_returns_to_receiving() {
    let mut b = running();
    for _ in 0..3 {
        assert!(matches!(b.step(ServerInput::Received(None)), ServerAction::Poll(256)));
        assert!(matches!(b.step(ServerInput::Done), ServerAction::Update));
        assert!(matches!(b.step(ServerInput::Done), ServerAction::Sleep(33_000_000)));
        assert!(matches!(b.step(ServerInput::Done), ServerAction::Receive));
    }
}

#[test]
fn commands_are_carried_out_before_packets() {
    let mut b = running();
    let send = ServerCommand::SendTo { data: vec![1, 2, 3], channel_id: 2, dest: endpoint(), flags: 1 };
    match b.step(ServerInput::Received(Some(send))) {
        ServerAction::SendTo { data, channel_id, dest, flags } => {
            assert_eq!((data, channel_id, dest, flags), (vec![1, 2, 3], 2, endpoint(), 1));
        }
        other => panic!("{:?}", other),
    }
    assert!(matches!(b.step(ServerInput::Done), ServerAction::Receive));
    let bye = ServerCommand::Disconnect { endpoint: endpoint() };
    match b.step(ServerInput::Received(Some(bye))) {
        ServerAction::DisconnectClient { endpoint: e } => assert_eq!(e, endpoint()),
        other => panic!("{:?}", other),
    }
    assert!(matches!(b.step(ServerInput::Done), ServerAction::Receive));
    assert!(matches!(b.step(ServerInput::Received(None)), ServerAction::Poll(256)));
}

#[test]
fn a_stop_is_final() {
    let mut b = running();
    assert!(matches!(b.step(ServerInput::Received(Some(ServerCommand::Stop))), ServerAction::Stop));
    assert!(matches!(b.step(ServerInput::Done), ServerAction::ReleaseCallbacks));
    assert!(matches!(b.step(ServerInput::Done), ServerAction::Exit));
    assert_eq!(b.phase, ServerPhase::Finished);
}

#[test]
fn failures_end_the_thread() {
    let mut b = ServerBridge::new("0.0\0", 1, 1, SpawnConfig::default(), codes());
    assert!(matches!(
        b.step(ServerInput::Done),
        ServerAction::Abort(ServerFailure::InvalidAddress)
    ));
    assert_eq!(b.phase, ServerPhase::Failed);

    let mut b = ServerBridge::new("0.0.0.0", 1, 1, SpawnConfig::default(), codes());
    b.step(ServerInput::Done);
    assert!(matches!(
        b.step(ServerInput::Created(false)),
        ServerAction::Abort(ServerFailure::NoServer)
    ));
    assert_eq!(b.phase, ServerPhase::Failed);

    let mut b = ServerBridge::new("0.0.0.0", 1, 1, SpawnConfig::default(), codes());
    b.step(ServerInput::Done);
    b.step(ServerInput::Created(true));
    b.step(ServerInput::Done);
    b.step(ServerInput::Done);
    b.step(ServerInput::Done);
    assert!(matches!(
        b.step(ServerInput::Started(-15)),
        ServerAction::Abort(ServerFailure::NotStarted(EntError::AlreadyStarted))
    ));
    assert_eq!(b.phase, ServerPhase::Failed);
}

#[test]
fn settings() {
    let d = SpawnConfig::default();
    assert_eq!((d.channel_buffer, d.tick_interval_nanos, d.poll_batch), (1024, 33_000_000, 256));
    let p = SpawnConfig::performance();
    assert_eq!((p.channel_buffer, p.tick_interval_nanos, p.poll_batch), (65536, 1_000_000, 4096));
    assert!(d.is_valid() && p.is_valid());
    let mut c = d;
    c.channel_buffer = 0;
    assert!(!c.is_valid());
    c.channel_buffer = usize::MAX / 8;
    assert!(c.is_valid());
    c.channel_buffer = usize::MAX / 8 + 1;
    assert!(!c.is_valid());
}

#[test]
fn channels_have_the_configured_capacity() {
    let mut config = SpawnConfig::performance();
    config.channel_buffer = 3;
    let s = spawn_server_with_config("0.0.0.0", 9876, 4, config, codes());
    assert_eq!(s.handle.tx.max_capacity(), 3);
    assert_eq!(s.commands.max_capacity(), 3);
    assert_eq!(s.events.max_capacity(), 3);
    assert_eq!(s.handle.rx.max_capacity(), 3);
    assert_eq!(s.bridge.port, 9876);
    assert_eq!(s.bridge.config, config);

    let s = spawn_server("127.0.0.1", 1, 2, codes());
    assert_eq!(s.handle.tx.max_capacity(), 1024);
    assert_eq!(s.events.max_capacity(), 1024);
    assert_eq!(s.bridge.bind_address, "127.0.0.1");
    assert_eq!(s.bridge.worker_count, 2);
    assert_eq!(s.bridge.config, SpawnConfig::default());
    assert_eq!(s.bridge.phase, ServerPhase::Idle);
}

#[test]
fn commands_come_through_the_channel_in_order() {
    let mut s = spawn_server("0.0.0.0", 9876, 4, codes());
    s.bridge = running();
    let sent = s.handle.tx.try_send(ServerCommand::Disconnect { endpoint: endpoint() });
    assert!(sent.is_ok());
    assert!(s.handle.tx.try_send(ServerCommand::Stop).is_ok());
    assert!(matches!(
        s.bridge.receive(&mut s.commands),
        ServerAction::DisconnectClient { endpoint: e } if e == endpoint()
    ));
    assert!(matches!(s.bridge.step(ServerInput::Done), ServerAction::Receive));
    assert!(matches!(s.bridge.receive(&mut s.commands), ServerAction::Stop));
}

#[test]
fn an_empty_or_closed_channel_lets_packets_be_processed() {
    let mut s = spawn_server("0.0.0.0", 9876, 4, codes());
    s.bridge = running();
    assert!(matches!(s.bridge.receive(&mut s.commands), ServerAction::Poll(256)));
    s.bridge = running();
    drop(s.handle);
    assert!(matches!(s.bridge.receive(&mut s.commands), ServerAction::Poll(256)));
}

#[test]
fn events_carry_what_the_transport_reports() {
    let key = RawEndpoint { address: 7, port: 8 };
    match ServerEvent::on_client_connected(key, Some(b"10.1.2.3"), 4242) {
        ServerEvent::ClientConnected { endpoint, address, port } => {
            assert_eq!(endpoint, EntEndpoint { address: 7, port: 8 });
            assert_eq!((address.as_str(), port), ("10.1.2.3", 4242));
        }
        other => panic!("{:?}", other),
    }
    match ServerEvent::on_client_disconnected(key, None, 1) {
        ServerEvent::ClientDisconnected { endpoint, address, port } => {
            assert_eq!(endpoint, EntEndpoint { address: 7, port: 8 });
            assert_eq!((address.as_str(), port), ("", 1));
        }
        other => panic!("{:?}", other),
    }
    match ServerEvent::on_client_connected(key, Some(b"x\xFF"), 1) {
        ServerEvent::ClientConnected { address, .. } => assert_eq!(address, "x\u{FFFD}"),
        other => panic!("{:?}", other),
    }
    let header = RawPacketHeader {
        magic: 1,
        version: 2,
        flags: 3,
        shard_id: 4,
        channel_id: 5,
        sequence: 6,
        ack: 7,
        ack_bitmap: 8,
        channel_sequence: 9,
        payload_size: 10,
    };
    match ServerEvent::on_client_data(&header, b"Hello", key) {
        ServerEvent::DataReceived { header: h, payload, sender } => {
            assert_eq!(h.to_raw(), header);
            assert_eq!(payload, b"Hello".to_vec());
            assert_eq!(sender, EntEndpoint { address: 7, port: 8 });
        }
        other => panic!("{:?}", other),
    }
}

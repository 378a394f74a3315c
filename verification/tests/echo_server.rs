use entanglement_rs::echo_server::{
    EchoAction, EchoInput, EchoMode, EchoPhase, EchoServer, QueuedEcho,
};
use entanglement_rs::error::{EntError, ErrorCodes};
use entanglement_rs::packet::EntEndpoint;

fn codes() -> ErrorCodes {
    ErrorCodes {
        socket: -1,
        not_connected: -2,
        connection_denied: -3,
        connection_timeout: -4,
        backpressured: -5,
        payload_too_large: -6,
        invalid_argument: -7,
        channel_in_use: -8,
        channel_not_found: -9,
        channel_slots_full: -10,
        channel_rejected: -11,
        channel_timeout: -12,
        pool_full: -13,
        duplicate_packet: -14,
        already_started: -15,
    }
}

fn started(mode: EchoMode) -> EchoServer {
    let mut s = EchoServer::new(mode, codes());
    assert!(matches!(s.step(EchoInput::Done), EchoAction::SetWorkerCount(4)));
    assert!(matches!(s.step(EchoInput::Done), EchoAction::RegisterDefaultChannels));
    if mode == EchoMode::Queued {
        assert!(matches!(s.step(EchoInput::Done), EchoAction::EnableAutoRetransmit));
    }
    assert!(matches!(s.step(EchoInput::Done), EchoAction::InstallCallbacks));
    assert!(matches!(s.step(EchoInput::Done), EchoAction::Start));
    s
}

fn queued(n: u8) -> QueuedEcho {
    QueuedEcho {
        data: vec![n; 3],
        channel_id: n,
        dest: EntEndpoint { address: n as u32, port: 7 },
    }
}

#[test]
fn a_direct_server_processes_packets() {
    let mut s = started(EchoMode::Direct);
    assert!(matches!(s.step(EchoInput::Started(0)), EchoAction::AskRunning));
    for _ in 0..2 {
        assert!(matches!(s.step(EchoInput::Answer(true)), EchoAction::Poll(8192)));
        assert!(matches!(s.step(EchoInput::Done), EchoAction::Update));
        assert!(matches!(s.step(EchoInput::Done), EchoAction::Yield));
        assert!(matches!(s.step(EchoInput::Done), EchoAction::AskRunning));
    }
    assert!(matches!(s.step(EchoInput::Answer(false)), EchoAction::Stop));
    assert!(matches!(s.step(EchoInput::Done), EchoAction::Exit));
    assert_eq!(s.phase, EchoPhase::Finished);
}

#[test]
fn a_queue_is_echoed_in_order_before_packets() {
    let mut s = started(EchoMode::Queued);
    assert!(matches!(s.step(EchoInput::Started(0)), EchoAction::AskRunning));
    assert!(matches!(s.step(EchoInput::Answer(true)), EchoAction::Take));
    for (n, code) in [(1u8, 3), (2, -5), (3, 0)] {
        match s.step(EchoInput::Taken(Some(queued(n)))) {
            EchoAction::SendTo { data, channel_id, dest, flags } => {
                assert_eq!(data, vec![n; 3]);
                assert_eq!((channel_id, dest.address, dest.port, flags), (n, n as u32, 7, 0));
            }
            other => panic!("{:?}", other),
        }
        assert!(matches!(s.step(EchoInput::Sent(code)), EchoAction::Take));
    }
    assert_eq!(s.echoed, 2);
    assert!(matches!(s.step(EchoInput::Taken(None)), EchoAction::Poll(4096)));
    assert!(matches!(s.step(EchoInput::Done), EchoAction::Update));
    assert!(matches!(s.step(EchoInput::Done), EchoAction::Sleep(500_000)));
    assert!(matches!(s.step(EchoInput::Done), EchoAction::AskRunning));
    assert!(matches!(s.step(EchoInput::Answer(false)), EchoAction::Stop));
}

#[test]
fn an_echo_server_that_does_not_start_aborts() {
    let mut s = started(EchoMode::Direct);
    assert!(matches!(
        s.step(EchoInput::Started(-15)),
        EchoAction::Abort(EntError::AlreadyStarted)
    ));
    assert_eq!(s.phase, EchoPhase::Failed);
}

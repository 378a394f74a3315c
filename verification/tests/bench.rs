use entanglement_rs::bench::{
    bench_payload, send_channel, BenchAction, BenchClient, BenchInput, BenchPhase, BenchServer,
    BenchServerAction, BenchServerInput, BenchServerPhase, RateMeter,
};
use entanglement_rs::error::{EntError, ErrorCodes};

fn codes() -> ErrorCodes {
    ErrorCodes {
        socket: -1,
        not_connected: -2,
        connection_denied: -3,
        connection_timeout: -4,
        backpressured: -5,
        payload_too_large: -6,
        invalid_argument: -7,
        channel_in_use: -8,
        channel_not_found: -9,
        channel_slots_full: -10,
        channel_rejected: -11,
        channel_timeout: -12,
        pool_full: -13,
        duplicate_packet: -14,
        already_started: -15,
    }
}

fn connecting(burst: usize) -> BenchClient {
    let mut c = BenchClient::new(burst, 3, true, codes());
    assert_eq!(c.step(BenchInput::Done), BenchAction::RegisterDefaultChannels);
    assert_eq!(c.step(BenchInput::Done), BenchAction::InstallCallbacks);
    assert_eq!(c.step(BenchInput::Done), BenchAction::Connect);
    c
}

fn connected(burst: usize) -> BenchClient {
    let mut c = connecting(burst);
    assert_eq!(c.step(BenchInput::Connected(0)), BenchAction::AskConnected);
    assert_eq!(c.step(BenchInput::Answer(true)), BenchAction::AskRunning);
    c
}

fn begin_pass(c: &mut BenchClient) {
    assert_eq!(c.step(BenchInput::Answer(true)), BenchAction::Poll(8192));
    assert_eq!(c.step(BenchInput::Done), BenchAction::Update);
    assert_eq!(c.step(BenchInput::Done), BenchAction::AskCanSend);
}

#[test]
fn payloads_and_channels() {
    assert_eq!(bench_payload(3), vec![0xAB, 0xAB, 0xAB]);
    assert!(bench_payload(0).is_empty());
    assert_eq!(send_channel(true), 4);
    assert_eq!(send_channel(false), 1);
}

#[test]
fn a_client_waits_for_its_connection() {
    let mut c = connecting(1);
    assert_eq!(c.step(BenchInput::Connected(0)), BenchAction::AskConnected);
    assert_eq!(c.step(BenchInput::Answer(false)), BenchAction::Poll(256));
    assert_eq!(c.step(BenchInput::Done), BenchAction::Update);
    assert_eq!(c.step(BenchInput::Done), BenchAction::Sleep(5_000_000));
    assert_eq!(c.step(BenchInput::Done), BenchAction::AskElapsed);
    assert_eq!(c.step(BenchInput::Elapsed(5_000_000_000)), BenchAction::AskConnected);
    assert_eq!(c.step(BenchInput::Answer(false)), BenchAction::Poll(256));
    c.step(BenchInput::Done);
    c.step(BenchInput::Done);
    c.step(BenchInput::Done);
    assert_eq!(c.step(BenchInput::Elapsed(5_000_000_001)), BenchAction::TimeOut);
    assert_eq!(c.phase, BenchPhase::Finished);
}

#[test]
fn a_refused_client_aborts() {
    let mut c = connecting(1);
    assert_eq!(
        c.step(BenchInput::Connected(-3)),
        BenchAction::Abort(EntError::ConnectionDenied)
    );
    assert_eq!(c.phase, BenchPhase::Failed);
}

#[test]
fn bursts_are_bounded_and_counted() {
    let mut c = connected(3);
    begin_pass(&mut c);
    assert_eq!(c.step(BenchInput::Answer(true)), BenchAction::AskCanSend);
    for code in [100, -5, 0] {
        assert_eq!(c.step(BenchInput::Answer(true)), BenchAction::Send { channel: 4, flags: 0 });
        let next = c.step(BenchInput::Sent(code));
        assert_eq!(next == BenchAction::Yield, code == 0);
    }
    assert_eq!(c.sent, 2);
    assert_eq!(c.step(BenchInput::Done), BenchAction::AskRunning);

    begin_pass(&mut c);
    assert_eq!(c.step(BenchInput::Answer(true)), BenchAction::AskCanSend);
    assert_eq!(c.step(BenchInput::Answer(true)), BenchAction::Send { channel: 4, flags: 0 });
    assert_eq!(c.step(BenchInput::Sent(1)), BenchAction::AskCanSend);
    assert_eq!(c.step(BenchInput::Answer(false)), BenchAction::Yield);
    assert_eq!(c.sent, 3);
    assert_eq!(c.step(BenchInput::Done), BenchAction::AskRunning);

    begin_pass(&mut c);
    assert_eq!(c.step(BenchInput::Answer(false)), BenchAction::Yield);
    assert_eq!(c.step(BenchInput::Done), BenchAction::AskRunning);
    assert_eq!(c.step(BenchInput::Answer(false)), BenchAction::Disconnect);
    assert_eq!(c.step(BenchInput::Done), BenchAction::Exit);
    assert_eq!(c.phase, BenchPhase::Finished);
}

#[test]
fn an_empty_burst_sends_nothing() {
    let mut c = connected(0);
    begin_pass(&mut c);
    assert_eq!(c.step(BenchInput::Answer(true)), BenchAction::Yield);
    assert_eq!(c.sent, 0);
}

#[test]
fn increases() {
    let mut m = RateMeter::new();
    assert_eq!(m.report(10, 4), (10, 4));
    assert_eq!(m.report(25, 4), (15, 0));
}

#[test]
fn the_server_reports_once_a_second() {
    let mut s = BenchServer::new(4, 2, codes());
    assert_eq!(s.step(BenchServerInput::Done), BenchServerAction::SetWorkerCount(4));
    assert_eq!(s.step(BenchServerInput::Done), BenchServerAction::SetUseAsyncIo(true));
    assert_eq!(s.step(BenchServerInput::Done), BenchServerAction::SetSocketCount(2));
    assert_eq!(s.step(BenchServerInput::Done), BenchServerAction::RegisterDefaultChannels);
    assert_eq!(s.step(BenchServerInput::Done), BenchServerAction::EnableAutoRetransmit);
    assert_eq!(s.step(BenchServerInput::Done), BenchServerAction::InstallCallbacks);
    assert_eq!(s.step(BenchServerInput::Done), BenchServerAction::Start);
    assert_eq!(s.step(BenchServerInput::Started(0)), BenchServerAction::Poll(8192));
    let rounds: [(u128, u64, u64, Option<u64>); 5] = [
        (1000, 0, 0, None),
        (2001, 5, 4, Some(5)),
        (3002, 9, 8, None),
        (4000, 9, 9, Some(4)),
        (5000, 9, 9, None),
    ];
    for (elapsed_millis, received, echoed, gain) in rounds {
        assert_eq!(s.step(BenchServerInput::Done), BenchServerAction::Update);
        assert_eq!(s.step(BenchServerInput::Done), BenchServerAction::ReadFigures);
        let next = s.step(BenchServerInput::Figures { elapsed_millis, received, echoed });
        match gain {
            Some(gained) => {
                assert_eq!(next, BenchServerAction::Report { received, gained, echoed });
                assert_eq!(s.step(BenchServerInput::Done), BenchServerAction::Yield);
            }
            None => assert_eq!(next, BenchServerAction::Yield),
        }
        assert_eq!(s.step(BenchServerInput::Done), BenchServerAction::Poll(8192));
    }
    assert_eq!(s.last_received, 9);
}

#[test]
fn a_server_that_does_not_start_aborts() {
    let mut s = BenchServer::new(4, 2, codes());
    for _ in 0..7 {
        s.step(BenchServerInput::Done);
    }
    assert_eq!(
        s.step(BenchServerInput::Started(-1)),
        BenchServerAction::Abort(EntError::Socket)
    );
    assert_eq!(s.phase, BenchServerPhase::Failed);
}

#[test]
fn every_message_is_the_same() {
    let c = BenchClient::new(1, 3, false, codes());
    assert_eq!(c.payload, vec![0xAB; 3]);
    assert_eq!(c.channel, 1);
    let c = connected(2);
    assert_eq!(c.payload, vec![0xAB; 3]);
    assert_eq!(c.channel, 4);
}

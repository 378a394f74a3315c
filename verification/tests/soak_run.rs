use entanglement_rs::error::{EntError, ErrorCodes};
use entanglement_rs::soak_run::{SoakAction, SoakInput, SoakPhase, SoakRun};

fn codes() -> ErrorCodes {
    ErrorCodes {
        socket: -1,
        not_connected: -2,
        connection_denied: -3,
        connection_timeout: -4,
        backpressured: -5,
        payload_too_large: -6,
        invalid_argument: -7,
        channel_in_use: -8,
        channel_not_found: -9,
        channel_slots_full: -10,
        channel_rejected: -11,
        channel_timeout: -12,
        pool_full: -13,
        duplicate_packet: -14,
        already_started: -15,
    }
}

fn connecting() -> SoakRun {
    let mut run = SoakRun::new(1000, codes());
    assert_eq!(run.step(SoakInput::Done), SoakAction::RegisterDefaultChannels);
    assert_eq!(run.step(SoakInput::Done), SoakAction::EnableAutoRetransmit);
    assert_eq!(run.step(SoakInput::Done), SoakAction::InstallCallbacks);
    assert_eq!(run.step(SoakInput::Done), SoakAction::Connect);
    run
}

fn sending() -> SoakRun {
    let mut run = connecting();
    assert_eq!(run.step(SoakInput::Connected(0)), SoakAction::AskConnected);
    assert_eq!(run.step(SoakInput::Answer(true)), SoakAction::AskSendTime);
    run
}

fn begin_pass(run: &mut SoakRun) {
    assert_eq!(run.step(SoakInput::Elapsed(999)), SoakAction::Poll(4096));
    assert_eq!(run.step(SoakInput::Done), SoakAction::Update);
    assert_eq!(run.step(SoakInput::Done), SoakAction::AskCanSend);
    assert_eq!(run.step(SoakInput::Answer(true)), SoakAction::AskCanSend);
}

#[test]
fn a_refused_run_aborts() {
    let mut run = connecting();
    assert_eq!(
        run.step(SoakInput::Connected(-4)),
        SoakAction::Abort(EntError::ConnectionTimeout)
    );
    assert_eq!(run.phase, SoakPhase::Failed);
}

#[test]
fn a_run_waits_ten_seconds_for_its_connection() {
    let mut run = connecting();
    assert_eq!(run.step(SoakInput::Connected(0)), SoakAction::AskConnected);
    for nanos in [0, 10_000_000_000, 10_000_000_001] {
        assert_eq!(run.step(SoakInput::Answer(false)), SoakAction::Poll(256));
        assert_eq!(run.step(SoakInput::Done), SoakAction::Update);
        assert_eq!(run.step(SoakInput::Done), SoakAction::Sleep(10_000_000));
        assert_eq!(run.step(SoakInput::Done), SoakAction::AskWaited);
        let next = run.step(SoakInput::Elapsed(nanos));
        if nanos > 10_000_000_000 {
            assert_eq!(next, SoakAction::TimeOut);
        } else {
            assert_eq!(next, SoakAction::AskConnected);
        }
    }
    assert_eq!(run.phase, SoakPhase::Finished);
}

#[test]
fn a_pass_sends_one_message_on_each_stream() {
    let mut run = sending();
    for pass in 1..4u32 {
        begin_pass(&mut run);
        for stream in 0..6usize {
            let mut next = run.step(SoakInput::Answer(true));
            if stream >= 3 {
                assert_eq!(next, SoakAction::AskThrottled);
                next = run.step(SoakInput::Answer(false));
            }
            let channel = [1, 2, 3, 1, 2, 3][stream];
            assert_eq!(next, SoakAction::Send { stream, msg_id: pass, channel, flags: 0 });
            let next = run.step(SoakInput::Sent(if stream == 1 { -5 } else { 9 }));
            if stream < 5 {
                assert_eq!(next, SoakAction::AskCanSend);
            } else {
                assert_eq!(next, SoakAction::AskReportTime);
            }
        }
        assert_eq!(run.total_sent, 5 * pass as u64);
        assert_eq!(run.counters, vec![pass; 6]);
        assert_eq!(run.step(SoakInput::Elapsed(1_999_999_999)), SoakAction::AskSendTime);
    }
}

#[test]
fn a_pass_ends_where_nothing_can_be_sent() {
    let mut run = sending();
    begin_pass(&mut run);
    assert_eq!(
        run.step(SoakInput::Answer(true)),
        SoakAction::Send { stream: 0, msg_id: 1, channel: 1, flags: 0 }
    );
    assert_eq!(run.step(SoakInput::Sent(0)), SoakAction::AskCanSend);
    assert_eq!(run.step(SoakInput::Answer(false)), SoakAction::AskReportTime);
    assert_eq!(run.step(SoakInput::Elapsed(2_000_000_000)), SoakAction::Report);
    assert_eq!(run.step(SoakInput::Done), SoakAction::AskSendTime);
    assert_eq!(run.counters, vec![1, 0, 0, 0, 0, 0]);
}

#[test]
fn throttled_messages_are_left_out() {
    let mut run = sending();
    begin_pass(&mut run);
    for _ in 0..3 {
        run.step(SoakInput::Answer(true));
        run.step(SoakInput::Sent(0));
    }
    for stream in 3..6 {
        assert_eq!(run.step(SoakInput::Answer(true)), SoakAction::AskThrottled);
        let next = run.step(SoakInput::Answer(true));
        if stream < 5 {
            assert_eq!(next, SoakAction::AskCanSend);
        } else {
            assert_eq!(next, SoakAction::AskReportTime);
        }
    }
    assert_eq!(run.counters, vec![1, 1, 1, 0, 0, 0]);
}

#[test]
fn a_run_pauses_while_the_transport_takes_nothing() {
    let mut run = sending();
    assert_eq!(run.step(SoakInput::Elapsed(0)), SoakAction::Poll(4096));
    run.step(SoakInput::Done);
    assert_eq!(run.step(SoakInput::Done), SoakAction::AskCanSend);
    assert_eq!(run.step(SoakInput::Answer(false)), SoakAction::Sleep(100_000));
    assert_eq!(run.step(SoakInput::Done), SoakAction::AskSendTime);
}

fn drain_rounds(run: &mut SoakRun) {
    for round in 0..200 {
        assert_eq!(run.step(SoakInput::Done), SoakAction::Update);
        assert_eq!(run.step(SoakInput::Done), SoakAction::Sleep(5_000_000));
        let next = run.step(SoakInput::Done);
        if round < 199 {
            assert_eq!(next, SoakAction::Poll(4096));
        } else {
            assert_eq!(next, SoakAction::AskEchoes);
        }
    }
}

#[test]
fn the_drain_lasts_while_echoes_come() {
    let mut run = sending();
    assert_eq!(run.step(SoakInput::Elapsed(1000)), SoakAction::Poll(4096));
    drain_rounds(&mut run);
    assert_eq!(
        run.step(SoakInput::Echoes { total: 7, elapsed_nanos: 1 }),
        SoakAction::ReportDrain(7)
    );
    assert_eq!(run.step(SoakInput::Done), SoakAction::Poll(4096));
    drain_rounds(&mut run);
    assert_eq!(
        run.step(SoakInput::Echoes { total: 7, elapsed_nanos: 2 }),
        SoakAction::Disconnect
    );
    assert_eq!(run.step(SoakInput::Done), SoakAction::Exit);
    assert_eq!(run.phase, SoakPhase::Finished);
}

#[test]
fn the_drain_ends_after_its_limit() {
    let mut run = sending();
    run.step(SoakInput::Elapsed(1000));
    drain_rounds(&mut run);
    assert_eq!(
        run.step(SoakInput::Echoes { total: 7, elapsed_nanos: 15_000_000_001 }),
        SoakAction::Disconnect
    );
}

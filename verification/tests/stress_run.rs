use entanglement_rs::stress::StressMsg;
use entanglement_rs::stress_run::{
    stress_channel_name, StressAction, StressInput, StressPhase, StressRun,
};

/// Answers what the run asks while clients connect, until it reports the connections.
/// Client `refused` is refused, client `late` never gets its connection and client
/// `closed` gets no channel; the others get the channel of their number.
fn connect_all(run: &mut StressRun, refused: usize, late: usize, closed: usize) -> StressAction {
    let mut action = run.step(StressInput::Done);
    let mut attempted = 0;
    let mut waited = 0;
    let mut progress = Vec::new();
    loop {
        let input = match action {
            StressAction::Connect(i) => {
                assert_eq!(i, attempted);
                attempted += 1;
                waited = 0;
                StressInput::Connected(if i == refused { -3 } else { 0 })
            }
            StressAction::AskHandshakeTime => StressInput::Elapsed(waited),
            StressAction::AskConnected(i) => StressInput::Answer(i != late),
            StressAction::Sleep(nanos) => {
                assert!(nanos == 5_000_000 || nanos == 10_000_000);
                waited += 2_500_000_000;
                StressInput::Done
            }
            StressAction::Poll { client, batch } => {
                assert_eq!(batch, if client + 1 == attempted && run.roster.slots.len() == client { 256 } else { 64 });
                StressInput::Done
            }
            StressAction::OpenChannel { client: i, mode, priority } => {
                assert_eq!((mode, priority), (1, 128));
                StressInput::Opened(if i == closed { -9 } else { i as i32 })
            }
            StressAction::ReportProgress { connected, attempted, failed } => {
                progress.push((connected, attempted, failed));
                StressInput::Done
            }
            StressAction::Update(_) | StressAction::Listen(_) => StressInput::Done,
            other => {
                if run.clients > 100 {
                    assert_eq!(progress[0].1, 100);
                }
                if run.clients > 0 {
                    let last = progress[progress.len() - 1];
                    assert_eq!(last.1, run.clients);
                }
                return other;
            }
        };
        action = run.step(input);
    }
}

#[test]
fn every_client_is_attempted_and_counted() {
    let mut run = StressRun::new(120, 1000, 100_000, false);
    assert_eq!(
        connect_all(&mut run, 3, 60, 119),
        StressAction::ReportConnected { connected: 117, failed: 3 }
    );
    assert_eq!(run.roster.slots.len(), 120);
    assert_eq!(run.step(StressInput::Done), StressAction::BeginTest);
    assert_eq!(run.roster.slots[12].next_send, 10_000_000);
}

#[test]
fn a_run_without_clients_gives_up() {
    let mut run = StressRun::new(0, 1000, 100_000, false);
    assert_eq!(
        connect_all(&mut run, 0, 0, 0),
        StressAction::ReportConnected { connected: 0, failed: 0 }
    );
    assert_eq!(run.step(StressInput::Done), StressAction::GiveUp);
    assert_eq!(run.phase, StressPhase::Finished);
    let mut run = StressRun::new(1, 1000, 100_000, true);
    assert_eq!(
        connect_all(&mut run, 0, 9, 9),
        StressAction::ReportConnected { connected: 0, failed: 1 }
    );
    assert_eq!(run.step(StressInput::Done), StressAction::GiveUp);
}

/// A run of three clients of which the second is not connected, about to ask for the time.
fn begun() -> StressRun {
    let mut run = StressRun::new(3, 10_000_000_000, 300_000, false);
    connect_all(&mut run, 1, 9, 9);
    assert_eq!(run.step(StressInput::Done), StressAction::BeginTest);
    assert_eq!(run.step(StressInput::Done), StressAction::AskElapsed);
    run
}

fn cycle_at(run: &mut StressRun, nanos: u128) -> StressAction {
    assert_eq!(run.step(StressInput::Elapsed(nanos)), StressAction::AskNow);
    run.step(StressInput::Elapsed(nanos))
}

fn look_after(run: &mut StressRun, client: usize) -> StressAction {
    assert_eq!(
        run.step(StressInput::Answer(true)),
        StressAction::Poll { client, batch: 64 }
    );
    assert_eq!(run.step(StressInput::Done), StressAction::Update(client));
    run.step(StressInput::Done)
}

#[test]
fn clients_send_at_their_rate() {
    let mut run = begun();
    let mut times = vec![Vec::new(), Vec::new(), Vec::new()];
    for tick in 0..200u128 {
        let nanos = tick * 50_000_000;
        if nanos >= 10_000_000_000 {
            break;
        }
        let mut action = cycle_at(&mut run, nanos);
        let mut sent = 0;
        while action != StressAction::AskElapsed {
            let input = match action {
                StressAction::AskConnected(_) | StressAction::AskCanSend(_) => {
                    StressInput::Answer(true)
                }
                StressAction::Send { client, msg, channel, flags } => {
                    assert_eq!(flags, 0);
                    assert_eq!(channel, client as u8);
                    assert_eq!(msg.client_index, client as u32);
                    assert_eq!(msg.sequence, times[client].len() as u32);
                    times[client].push(nanos);
                    sent += 1;
                    StressInput::Sent(8)
                }
                StressAction::Yield => {
                    assert_eq!(sent, 0);
                    StressInput::Done
                }
                StressAction::ReportTotals { sent, cycles } => {
                    assert!(nanos >= 5_000_000_000);
                    assert_eq!(cycles as u128, tick + 1);
                    assert_eq!(sent as usize, times[0].len() + times[2].len());
                    StressInput::Done
                }
                _ => StressInput::Done,
            };
            action = run.step(input);
        }
    }
    assert!(times[1].is_empty());
    assert_eq!(times[0][0], 0);
    assert_eq!(times[2][0], 200_000_000);
    assert_eq!(times[0].len(), 34);
    for c in [0, 2] {
        for k in 1..times[c].len() {
            assert_eq!(times[c][k] - times[c][k - 1], 300_000_000);
        }
    }
    assert_eq!(run.total_sent as usize, times[0].len() + times[2].len());
    assert_eq!(run.roster.slots[0].sent as usize, times[0].len());
}

#[test]
fn a_client_that_cannot_send_waits_for_its_next_time() {
    let mut run = begun();
    assert_eq!(cycle_at(&mut run, 10), StressAction::AskConnected(0));
    assert_eq!(look_after(&mut run, 0), StressAction::AskCanSend(0));
    assert_eq!(run.step(StressInput::Answer(false)), StressAction::AskConnected(2));
    assert_eq!(run.roster.slots[0].next_send, 300_000_010);
    assert_eq!(run.step(StressInput::Answer(false)), StressAction::Yield);
    assert_eq!(run.step(StressInput::Done), StressAction::AskElapsed);
    assert_eq!(cycle_at(&mut run, 300_000_009), StressAction::AskConnected(0));
    assert_eq!(look_after(&mut run, 0), StressAction::AskConnected(2));
    assert_eq!(look_after(&mut run, 2), StressAction::AskCanSend(2));
    assert_eq!(
        run.step(StressInput::Answer(true)),
        StressAction::Send {
            client: 2,
            msg: StressMsg { client_index: 2, sequence: 0 },
            channel: 2,
            flags: 0
        }
    );
    assert_eq!(run.step(StressInput::Sent(-5)), StressAction::Yield);
    assert_eq!(run.total_sent, 0);
    assert_eq!(run.cycles, 2);
}

#[test]
fn a_run_drains_and_disconnects() {
    let mut run = begun();
    assert_eq!(run.step(StressInput::Elapsed(10_000_000_000)), StressAction::BeginDrain);
    assert_eq!(run.step(StressInput::Done), StressAction::AskDrainTime);
    assert_eq!(run.step(StressInput::Elapsed(2_999_999_999)), StressAction::AskConnected(0));
    assert_eq!(look_after(&mut run, 0), StressAction::AskConnected(2));
    assert_eq!(run.step(StressInput::Answer(false)), StressAction::Yield);
    assert_eq!(run.step(StressInput::Done), StressAction::AskDrainTime);
    assert_eq!(run.step(StressInput::Elapsed(3_000_000_000)), StressAction::Collect);
    assert_eq!(run.step(StressInput::Done), StressAction::Disconnect(0));
    assert_eq!(run.step(StressInput::Done), StressAction::Disconnect(2));
    assert_eq!(run.step(StressInput::Done), StressAction::Exit);
    assert_eq!(run.phase, StressPhase::Finished);
}

#[test]
fn channels_have_a_name() {
    assert_eq!(stress_channel_name(), "stress");
}

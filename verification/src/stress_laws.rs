//! What a run of the stress test does for its clients: none is left out, neither while they
//! connect nor in their turns, in the drain or at the end.

#[allow(unused_imports)]
use crate::stress::{connected_count, stagger, StressMsg, StressSlot};
#[allow(unused_imports)]
use crate::stress_run::{
    all_expected, connected_from, first_connected, has_client, is_turn, lemma_next_wf,
    StressAction, StressInput, StressModel, StressPhase,
};
use vstd::prelude::*;

verus! {

/// Whether `j` is the first of the clients `from` to `to` that was connected: it was, and none
/// before it was.
pub open spec fn is_next(slots: Seq<StressSlot>, from: int, to: int, j: int) -> bool {
    &&& from <= j < to
    &&& slots[j].connected
    &&& forall|k: int| from <= k < j ==> !(#[trigger] slots[k]).connected
}

/// Whether none of the clients `from` to `to` was connected.
pub open spec fn none_is_left(slots: Seq<StressSlot>, from: int, to: int) -> bool {
    forall|k: int| from <= k < to ==> !(#[trigger] slots[k]).connected
}

/// The first connected client is the first one that is connected.
proof fn lemma_first(slots: Seq<StressSlot>, from: int, to: int)
    requires
        0 <= from <= to,
    ensures
        ({
            let j = first_connected(slots, from, to);
            &&& from <= j <= to
            &&& j < to ==> is_next(slots, from, to, j)
            &&& j == to ==> none_is_left(slots, from, to)
        }),
    decreases to - from,
{
    if from < to && !slots[from].connected {
        lemma_first(slots, from + 1, to);
    }
}

/// Whether a run that looks for the next client from number `from` on finds it: it asks
/// whether the next connected client is still connected, in `phase`, and changes nothing else.
pub open spec fn asks_next(
    run: StressModel,
    next: (StressModel, StressAction),
    phase: StressPhase,
    from: int,
    to: int,
) -> bool {
    &&& is_next(run.slots, from, to, next.0.index)
    &&& next.0 == (StressModel { phase, index: next.0.index, ..run })
    &&& next.1 == StressAction::AskConnected(next.0.index as usize)
}

/// Whether a run in which all clients have had their turn goes on as it should: it counts the
/// cycle, tells the totals if five seconds have passed since they were last due, and else lets
/// other threads run where nothing was sent, and asks for the time where something was.
pub open spec fn ends_cycle(run: StressModel, next: (StressModel, StressAction)) -> bool {
    let counted = StressModel { cycles: run.cycles + 1, ..run };
    if run.now >= run.next_report {
        next == (
            StressModel {
                phase: StressPhase::ReportingTotals,
                next_report: run.now + 5_000_000_000,
                ..counted
            },
            StressAction::ReportTotals {
                sent: run.total_sent as u64,
                cycles: (run.cycles + 1) as u64,
            },
        )
    } else if run.cycle_sends == 0 {
        next == (StressModel { phase: StressPhase::Yielding, ..counted }, StressAction::Yield)
    } else {
        next == (
            StressModel { phase: StressPhase::AskingElapsed, ..counted },
            StressAction::AskElapsed,
        )
    }
}

/// Whether a run goes on with the turns of the clients from number `from` on: the next
/// connected one has its turn, and the cycle ends only where none is left.
pub open spec fn goes_on_with_turns(
    run: StressModel,
    next: (StressModel, StressAction),
    from: int,
) -> bool {
    ||| asks_next(run, next, StressPhase::TurnAsking, from, run.clients)
    ||| none_is_left(run.slots, from, run.clients) && ends_cycle(run, next)
}

/// A cycle begins with the first connected client, at the time that was read.
pub proof fn law_cycle_begins(run: StressModel, nanos: u128)
    requires
        run.wf(),
        run.phase is AskingNow,
        run.expects(StressInput::Elapsed(nanos)),
    ensures
        goes_on_with_turns(
            StressModel { now: nanos as int, cycle_sends: 0, ..run },
            run.next(StressInput::Elapsed(nanos)),
            0,
        ),
{
    lemma_first(run.slots, 0, run.clients);
}

/// The turn of a client: one that is connected no longer is passed over. Any other has up to 64
/// packets processed and is updated, and where its time has come it is asked whether it can
/// send. Then its next time is set, an interval ahead, whether or not it can; where it can, it
/// sends its next message on its channel, which counts exactly where the transport took it.
/// In every case the next connected client follows.
pub proof fn law_turn_of_a_client(run: StressModel, code: i32)
    requires
        run.wf(),
        run.phase is TurnAsking,
        run.cycles < u64::MAX,
        run.total_sent < u64::MAX,
        run.slots[run.index].sent < u32::MAX,
    ensures
        ({
            let no = StressInput::Answer(false);
            let yes = StressInput::Answer(true);
            let done = StressInput::Done;
            let sent = StressInput::Sent(code);
            let slot = run.slots[run.index];
            let polled = run.next(yes);
            let updated = polled.0.next(done);
            let looked = updated.0.next(done);
            let later = StressModel {
                slots: run.slots.update(
                    run.index,
                    StressSlot { next_send: (run.now + 1000 * run.interval) as u128, ..slot },
                ),
                ..run
            };
            let offered = looked.0.next(yes);
            let taken: int = if code >= 0 {
                1
            } else {
                0
            };
            let counted = StressModel {
                slots: run.slots.update(
                    run.index,
                    StressSlot {
                        next_send: (run.now + 1000 * run.interval) as u128,
                        sent: (slot.sent + taken) as u32,
                        ..slot
                    },
                ),
                cycle_sends: run.cycle_sends + taken,
                total_sent: run.total_sent + taken,
                ..run
            };
            &&& run.expects(no) && goes_on_with_turns(run, run.next(no), run.index + 1)
            &&& run.expects(yes) && polled.1 == (StressAction::Poll {
                client: run.index as usize,
                batch: 64,
            })
            &&& polled.0.expects(done) && updated.1 == StressAction::Update(run.index as usize)
            &&& updated.0.expects(done)
            &&& run.now < slot.next_send ==> goes_on_with_turns(run, looked, run.index + 1)
            &&& run.now >= slot.next_send ==> {
                &&& looked.1 == StressAction::AskCanSend(run.index as usize)
                &&& looked.0.expects(no) && goes_on_with_turns(
                    later,
                    looked.0.next(no),
                    run.index + 1,
                )
                &&& looked.0.expects(yes) && offered.1 == (StressAction::Send {
                    client: run.index as usize,
                    msg: StressMsg {
                        client_index: (run.index % 0x1_0000_0000) as u32,
                        sequence: slot.sent,
                    },
                    channel: (slot.channel_id as int % 256) as u8,
                    flags: 0,
                })
                &&& offered.0.expects(sent) && goes_on_with_turns(
                    counted,
                    offered.0.next(sent),
                    run.index + 1,
                )
            }
        }),
{
    let slot = run.slots[run.index];
    lemma_first(run.slots, run.index + 1, run.clients);
    let next_send = (run.now + 1000 * run.interval) as u128;
    let set = run.slots.update(run.index, StressSlot { next_send, ..slot });
    let taken: int = if code >= 0 {
        1
    } else {
        0
    };
    let counted = run.slots.update(
        run.index,
        StressSlot { next_send, sent: (slot.sent + taken) as u32, ..slot },
    );
    lemma_first(set, run.index + 1, run.clients);
    lemma_first(counted, run.index + 1, run.clients);
    assert(set.update(run.index, set[run.index].counted(code)) =~= counted);
}

/// The clients that are asked whether they are connected in a series of inputs, in order.
pub open spec fn asked(run: StressModel, inputs: Seq<StressInput>) -> Seq<usize>
    decreases inputs.len(),
{
    if inputs.len() == 0 {
        Seq::empty()
    } else {
        let rest = asked(run.next(inputs[0]).0, inputs.drop_first());
        match run.next(inputs[0]).1 {
            StressAction::AskConnected(client) => seq![client] + rest,
            _ => rest,
        }
    }
}

/// Whether the inputs last just to the end of the turns of all clients.
pub open spec fn last_one_cycle(run: StressModel, inputs: Seq<StressInput>) -> bool
    decreases inputs.len(),
{
    &&& inputs.len() > 0
    &&& if inputs.len() == 1 {
        !is_turn(run.next(inputs[0]).0.phase)
    } else {
        is_turn(run.next(inputs[0]).0.phase) && last_one_cycle(
            run.next(inputs[0]).0,
            inputs.drop_first(),
        )
    }
}

/// Lists of connected clients agree where the same clients are connected.
proof fn lemma_connected_from_same(a: Seq<StressSlot>, b: Seq<StressSlot>, from: int)
    requires
        a.len() == b.len(),
        0 <= from <= a.len(),
        forall|i: int| 0 <= i < a.len() ==> (#[trigger] a[i]).connected == b[i].connected,
    ensures
        connected_from(a, from) == connected_from(b, from),
    decreases a.len() - from,
{
    if from < a.len() {
        assert(a[from].connected == b[from].connected);
        lemma_connected_from_same(a, b, from + 1);
    }
}

/// The list of connected clients begins with the next one, and is empty where none is left.
proof fn lemma_connected_from_next(slots: Seq<StressSlot>, from: int)
    requires
        0 <= from <= slots.len(),
    ensures
        none_is_left(slots, from, slots.len() as int) ==> connected_from(slots, from)
            == Seq::<usize>::empty(),
        forall|j: int|
            #[trigger] is_next(slots, from, slots.len() as int, j) ==> connected_from(slots, from)
                == seq![j as usize] + connected_from(slots, j + 1),
    decreases slots.len() - from,
{
    if from < slots.len() {
        lemma_connected_from_next(slots, from + 1);
        assert forall|j: int| #[trigger]
            is_next(slots, from, slots.len() as int, j) implies connected_from(slots, from)
            == seq![j as usize] + connected_from(slots, j + 1) by {
            if !slots[from].connected {
                assert(is_next(slots, from + 1, slots.len() as int, j));
            } else {
                if j > from {
                    assert(!slots[from].connected);
                }
            }
        }
    }
}

/// In every cycle each connected client has its turn, once and in order: those that are asked
/// are exactly the connected ones, whatever they answer and whatever is sent.
pub proof fn law_cycle_asks_every_client(run: StressModel, inputs: Seq<StressInput>)
    requires
        run.wf(),
        run.phase is AskingNow || is_turn(run.phase),
        all_expected(run, inputs),
        last_one_cycle(run, inputs),
    ensures
        asked(run, inputs) == connected_from(
            run.slots,
            if run.phase is AskingNow {
                0
            } else {
                run.index + 1
            },
        ),
    decreases inputs.len(),
{
    let from: int = if run.phase is AskingNow {
        0
    } else {
        run.index + 1
    };
    let input = inputs[0];
    let rest = inputs.drop_first();
    let next = run.next(input);
    lemma_next_wf(run, input);
    lemma_connected_from_next(run.slots, from);
    lemma_first(run.slots, from, run.clients);
    lemma_first(next.0.slots, from, run.clients);
    assert forall|i: int| 0 <= i < run.slots.len() implies (#[trigger] run.slots[i]).connected
        == next.0.slots[i].connected by {}
    lemma_connected_from_same(run.slots, next.0.slots, from);
    lemma_connected_from_next(next.0.slots, from);
    if inputs.len() > 1 {
        law_cycle_asks_every_client(next.0, rest);
        if next.0.phase is TurnAsking {
            assert(is_next(next.0.slots, from, run.clients, next.0.index));
        }
    } else {
        assert(asked(next.0, rest) =~= Seq::<usize>::empty());
    }
}

/// The test lasts its time: as long as less than the duration has passed another cycle begins,
/// and the drain begins exactly once the time is up. Reports and yields lead back to the clock.
pub proof fn law_test_lasts_its_time(run: StressModel, nanos: u128)
    ensures
        ({
            let clock = StressInput::Elapsed(nanos);
            let done = StressInput::Done;
            let ask = (
                StressModel { phase: StressPhase::AskingElapsed, ..run },
                StressAction::AskElapsed,
            );
            &&& run.phase is AskingElapsed ==> run.expects(clock)
            &&& run.phase is AskingElapsed && nanos < run.duration_nanos ==> run.next(clock) == (
                StressModel { phase: StressPhase::AskingNow, ..run },
                StressAction::AskNow,
            )
            &&& run.phase is AskingElapsed && nanos >= run.duration_nanos ==> run.next(clock) == (
                StressModel { phase: StressPhase::BeginningDrain, ..run },
                StressAction::BeginDrain,
            )
            &&& run.phase is BeginningTest || run.phase is Yielding ==> run.expects(done)
                && run.next(done) == ask
            &&& run.phase is ReportingTotals && run.cycle_sends != 0 ==> run.expects(done)
                && run.next(done) == ask
            &&& run.phase is ReportingTotals && run.cycle_sends == 0 ==> run.expects(done)
                && run.next(done) == (
                StressModel { phase: StressPhase::Yielding, ..run },
                StressAction::Yield,
            )
        }),
{
}

/// Whether a run goes on with the drain from client number `from` on: the next connected client
/// is asked for, and other threads run only where none is left.
pub open spec fn goes_on_with_drain(
    run: StressModel,
    next: (StressModel, StressAction),
    from: int,
) -> bool {
    ||| asks_next(run, next, StressPhase::DrainAsking, from, run.clients)
    ||| none_is_left(run.slots, from, run.clients) && next == (
        StressModel { phase: StressPhase::DrainYielding, ..run },
        StressAction::Yield,
    )
}

/// The drain lasts three seconds, in rounds over all connected clients; then the figures are
/// collected.
pub proof fn law_drain(run: StressModel, nanos: u128)
    requires
        run.wf(),
    ensures
        ({
            let clock = StressInput::Elapsed(nanos);
            let done = StressInput::Done;
            &&& run.phase is BeginningDrain || run.phase is DrainYielding ==> run.expects(done)
                && run.next(done) == (
                StressModel { phase: StressPhase::AskingDrainTime, ..run },
                StressAction::AskDrainTime,
            )
            &&& run.phase is AskingDrainTime ==> run.expects(clock)
            &&& run.phase is AskingDrainTime && nanos < 3_000_000_000 ==> goes_on_with_drain(
                run,
                run.next(clock),
                0,
            )
            &&& run.phase is AskingDrainTime && nanos >= 3_000_000_000 ==> run.next(clock) == (
                StressModel { phase: StressPhase::Collecting, ..run },
                StressAction::Collect,
            )
        }),
{
    if run.phase is AskingDrainTime {
        lemma_first(run.slots, 0, run.clients);
    }
}

/// In the drain a client that is still connected has up to 64 packets processed and is updated,
/// and in either case the next connected client follows.
pub proof fn law_drain_of_a_client(run: StressModel)
    requires
        run.wf(),
        run.phase is DrainAsking,
    ensures
        ({
            let no = StressInput::Answer(false);
            let yes = StressInput::Answer(true);
            let done = StressInput::Done;
            let polled = run.next(yes);
            let updated = polled.0.next(done);
            &&& run.expects(no) && goes_on_with_drain(run, run.next(no), run.index + 1)
            &&& run.expects(yes) && polled.1 == (StressAction::Poll {
                client: run.index as usize,
                batch: 64,
            })
            &&& polled.0.expects(done) && updated.1 == StressAction::Update(run.index as usize)
            &&& updated.0.expects(done) && goes_on_with_drain(
                run,
                updated.0.next(done),
                run.index + 1,
            )
        }),
{
    lemma_first(run.slots, run.index + 1, run.clients);
}

/// Once the figures are collected, every connected client disconnects, the next following the
/// last, and the run ends only where none is left.
pub proof fn law_disconnects(run: StressModel)
    requires
        run.wf(),
        run.phase is Collecting || run.phase is Disconnecting,
    ensures
        ({
            let from: int = if run.phase is Collecting {
                0
            } else {
                run.index + 1
            };
            let next = run.next(StressInput::Done);
            &&& run.expects(StressInput::Done)
            &&& {
                ||| is_next(run.slots, from, run.clients, next.0.index)
                    && next.0.phase is Disconnecting && next.1 == StressAction::Disconnect(
                    next.0.index as usize,
                )
                ||| none_is_left(run.slots, from, run.clients) && next.1 is Exit
                    && next.0.phase is Finished
            }
            &&& next.0.slots == run.slots && next.0.total_sent == run.total_sent && next.0.cycles
                == run.cycles
        }),
{
    lemma_first(
        run.slots,
        if run.phase is Collecting {
            0
        } else {
            run.index + 1
        },
        run.clients,
    );
}

/// The number of the client behind the last one of the current batch: batches are of fifty.
pub open spec fn batch_limit(run: StressModel) -> int {
    if run.base + 50 < run.clients {
        run.base + 50
    } else {
        run.clients
    }
}

/// Whether a run goes on with keeping the clients of earlier batches alive from number `from`
/// on: the next connected one is asked for, and a pause of ten milliseconds follows only where
/// none is left.
pub open spec fn keeps_batches(
    run: StressModel,
    next: (StressModel, StressAction),
    from: int,
) -> bool {
    ||| asks_next(run, next, StressPhase::BatchAsking, from, run.base)
    ||| none_is_left(run.slots, from, run.base) && next == (
        StressModel { phase: StressPhase::BatchSleeping, ..run },
        StressAction::Sleep(10_000_000),
    )
}

/// Whether a run goes on behind an attempt: with the next client of the batch; or, where the
/// batch is over, with the numbers of connected and failed clients, where they are asked for,
/// after every second batch and after the last; and else with the clients of earlier batches.
pub open spec fn goes_behind_attempt(run: StressModel, next: (StressModel, StressAction)) -> bool {
    let attempted = run.slots.len() as int;
    let ok = connected_count(run.slots, attempted);
    if attempted < batch_limit(run) {
        next == (
            StressModel { phase: StressPhase::Connecting, ..run },
            StressAction::Connect(attempted as usize),
        )
    } else if run.verbose || (run.base + 50) % 100 == 0 || run.base + 50 >= run.clients {
        next == (
            StressModel { phase: StressPhase::ReportingProgress, ..run },
            StressAction::ReportProgress {
                connected: ok as usize,
                attempted: batch_limit(run) as usize,
                failed: (attempted - ok) as usize,
            },
        )
    } else {
        keeps_batches(run, next, 0)
    }
}

/// A client that was not connected: it has no channel and has sent nothing.
pub open spec fn left_out() -> StressSlot {
    StressSlot { connected: false, sent: 0, channel_id: (-1) as i32, next_send: 0 }
}

/// An attempt that is refused leaves its client out. Else the client waits for its connection
/// for up to five seconds and is left out then; while it waits, up to 256 packets are processed
/// for it, it is updated, and it is asked whether it is connected. One that is connected opens
/// a reliable channel, and is left out only where it gets none; a client with a channel is
/// listened to. In each case the next attempt follows.
pub proof fn law_attempt(run: StressModel, code: i32, nanos: u128, id: i32)
    requires
        run.wf(),
    ensures
        ({
            let refused = StressInput::Connected(code);
            let clock = StressInput::Elapsed(nanos);
            let opened = StressInput::Opened(id);
            let done = StressInput::Done;
            let n = run.slots.len() as usize;
            let without = StressModel { slots: run.slots.push(left_out()), ..run };
            let with = StressModel {
                slots: run.slots.push(
                    StressSlot { connected: true, sent: 0, channel_id: id, next_send: 0 },
                ),
                ..run
            };
            &&& run.phase is Connecting ==> run.expects(refused)
            &&& run.phase is Connecting && code < 0 ==> goes_behind_attempt(
                without,
                run.next(refused),
            )
            &&& run.phase is Connecting && code >= 0 ==> run.next(refused) == (
                StressModel { phase: StressPhase::AskingHandshakeTime, ..run },
                StressAction::AskHandshakeTime,
            )
            &&& run.phase is AskingHandshakeTime ==> run.expects(clock)
            &&& run.phase is AskingHandshakeTime && nanos >= 5_000_000_000 ==> goes_behind_attempt(
                without,
                run.next(clock),
            )
            &&& run.phase is AskingHandshakeTime && nanos < 5_000_000_000 ==> {
                let polled = run.next(clock);
                let updated = polled.0.next(done);
                let asked = updated.0.next(done);
                &&& polled.1 == (StressAction::Poll { client: n, batch: 256 })
                &&& polled.0.expects(done) && updated.1 == StressAction::Update(n)
                &&& updated.0.expects(done) && asked == (
                    StressModel { phase: StressPhase::AskingHandshake, ..run },
                    StressAction::AskConnected(n),
                )
            }
            &&& run.phase is AskingHandshake ==> {
                &&& run.expects(StressInput::Answer(true)) && run.next(StressInput::Answer(true))
                    == (
                    StressModel { phase: StressPhase::OpeningChannel, ..run },
                    StressAction::OpenChannel { client: n, mode: 1, priority: 128 },
                )
                &&& run.expects(StressInput::Answer(false)) && run.next(StressInput::Answer(false))
                    == (
                    StressModel { phase: StressPhase::HandshakeSleeping, ..run },
                    StressAction::Sleep(5_000_000),
                )
            }
            &&& run.phase is OpeningChannel ==> run.expects(opened)
            &&& run.phase is OpeningChannel && id < 0 ==> goes_behind_attempt(
                without,
                run.next(opened),
            )
            &&& run.phase is OpeningChannel && id >= 0 ==> run.next(opened) == (
                StressModel { phase: StressPhase::Listening, ..with },
                StressAction::Listen(n),
            )
            &&& run.phase is Listening ==> run.expects(done) && goes_behind_attempt(
                run,
                run.next(done),
            )
        }),
{
    if run.base <= run.slots.len() {
        lemma_first(run.slots, 0, run.base);
        lemma_first(run.slots.push(left_out()), 0, run.base);
    }
}

/// Between two looks at a client that connects, every client that is connected already has up
/// to 64 packets processed and is updated, one after the other, and the clock is looked at only
/// where none is left.
pub proof fn law_connected_clients_are_kept_alive(run: StressModel)
    requires
        run.wf(),
        run.phase is HandshakeSleeping || run.phase is KeepPolling || run.phase is KeepUpdating,
    ensures
        ({
            let from: int = if run.phase is HandshakeSleeping {
                0
            } else {
                run.index + 1
            };
            let done = StressInput::Done;
            let next = run.next(done);
            let n = run.slots.len() as int;
            &&& run.expects(done)
            &&& run.phase is KeepPolling ==> next == (
                StressModel { phase: StressPhase::KeepUpdating, ..run },
                StressAction::Update(run.index as usize),
            )
            &&& !(run.phase is KeepPolling) ==> {
                ||| is_next(run.slots, from, n, next.0.index) && next.0 == (StressModel {
                    phase: StressPhase::KeepPolling,
                    index: next.0.index,
                    ..run
                }) && next.1 == (StressAction::Poll { client: next.0.index as usize, batch: 64 })
                ||| none_is_left(run.slots, from, n) && next == (
                    StressModel { phase: StressPhase::AskingHandshakeTime, ..run },
                    StressAction::AskHandshakeTime,
                )
            }
        }),
{
    lemma_first(run.slots, 0, run.slots.len() as int);
    if has_client(run.phase) {
        lemma_first(run.slots, run.index + 1, run.slots.len() as int);
    }
}

/// Between two batches every connected client of the earlier ones is asked for, and one that
/// still is connected has up to 64 packets processed and is updated. Behind the pause the next
/// batch of fifty begins, and the attempts end only where no client is left to attempt.
pub proof fn law_between_batches(run: StressModel)
    requires
        run.wf(),
    ensures
        ({
            let no = StressInput::Answer(false);
            let yes = StressInput::Answer(true);
            let done = StressInput::Done;
            let n = run.slots.len() as int;
            let ok = connected_count(run.slots, n);
            &&& run.phase is ReportingProgress ==> run.expects(done) && keeps_batches(
                run,
                run.next(done),
                0,
            )
            &&& run.phase is BatchAsking ==> {
                let polled = run.next(yes);
                let updated = polled.0.next(done);
                &&& run.expects(no) && keeps_batches(run, run.next(no), run.index + 1)
                &&& run.expects(yes) && polled.1 == (StressAction::Poll {
                    client: run.index as usize,
                    batch: 64,
                })
                &&& polled.0.expects(done) && updated.1 == StressAction::Update(run.index as usize)
                &&& updated.0.expects(done) && keeps_batches(
                    run,
                    updated.0.next(done),
                    run.index + 1,
                )
            }
            &&& run.phase is BatchSleeping && n < run.clients ==> run.expects(done) && run.next(
                done,
            ) == (
                StressModel { phase: StressPhase::Connecting, base: run.base + 50, ..run },
                StressAction::Connect(n as usize),
            )
            &&& (run.phase is BatchSleeping && n == run.clients) || (run.phase is Idle
                && run.clients == 0) ==> run.expects(done) && run.next(done) == (
                StressModel { phase: StressPhase::ReportingConnected, ..run },
                StressAction::ReportConnected {
                    connected: ok as usize,
                    failed: (n - ok) as usize,
                },
            )
            &&& run.phase is Idle && run.clients > 0 ==> run.expects(done) && run.next(done) == (
                StressModel { phase: StressPhase::Connecting, ..run },
                StressAction::Connect(0),
            )
        }),
{
    if run.base <= run.slots.len() {
        lemma_first(run.slots, 0, run.base);
    }
    if has_client(run.phase) && run.index < run.base {
        lemma_first(run.slots, run.index + 1, run.base);
    }
}

/// Once all clients were attempted, the run gives up exactly where none is connected. Else the
/// test begins, with the first messages of the clients spread over one interval.
pub proof fn law_test_begins(run: StressModel)
    requires
        run.wf(),
        run.phase is ReportingConnected,
    ensures
        ({
            let done = StressInput::Done;
            let next = run.next(done);
            let n = run.slots.len() as int;
            &&& run.expects(done)
            &&& connected_count(run.slots, n) == 0 ==> next.1 is GiveUp && next.0.phase is Finished
            &&& connected_count(run.slots, n) > 0 ==> {
                &&& next.1 is BeginTest
                &&& next.0 == (StressModel {
                    phase: StressPhase::BeginningTest,
                    slots: next.0.slots,
                    ..run
                })
                &&& next.0.slots.len() == n
                &&& forall|i: int|
                    0 <= i < n ==> (#[trigger] next.0.slots[i]) == (StressSlot {
                        next_send: (1000 * stagger(run.interval, i, n)) as u128,
                        ..run.slots[i]
                    })
            }
            &&& next.0.phase is Finished ==> forall|more: StressInput| !next.0.expects(more)
        }),
{
}

} // verus!

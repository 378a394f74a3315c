//! The run of the stress test: connect many clients in batches, let each send at its rate
//! for a while, wait for the last echoes, disconnect.

use crate::error::is_accepted;
use crate::stress::{
    batch_end, progress_is_due, Handshake, StressMsg, StressRoster, StressSlot, CONNECT_BATCH,
};
#[allow(unused_imports)]
use crate::stress::{connected_count, lemma_connected_count_same, scheduled};
use vstd::prelude::*;

verus! {

/// The most packets that are processed at once while a client connects.
pub const HANDSHAKE_BATCH: i32 = 256;

/// The most packets that are processed at once for a connected client.
pub const CLIENT_BATCH: i32 = 64;

/// The longest time that a client waits for its connection, in nanoseconds: 5 s.
pub const HANDSHAKE_LIMIT_NANOS: u128 = 5_000_000_000;

/// Pause while a client waits for its connection, in nanoseconds: 5 ms.
pub const HANDSHAKE_WAIT_NANOS: u128 = 5_000_000;

/// Pause between two batches, in nanoseconds: 10 ms.
pub const BATCH_WAIT_NANOS: u128 = 10_000_000;

/// The time between two reports, in nanoseconds: 5 s.
pub const STRESS_REPORT_NANOS: u128 = 5_000_000_000;

/// How long the last echoes are waited for, in nanoseconds: 3 s.
pub const STRESS_DRAIN_NANOS: u128 = 3_000_000_000;

/// The longest time between two messages of a client, in microseconds: 1 s.
pub const LONGEST_INTERVAL_MICROS: u64 = 1_000_000;

/// The mode of a client's channel: every message arrives.
pub const STRESS_CHANNEL_MODE: u32 = 1;

/// The priority of a client's channel.
pub const STRESS_CHANNEL_PRIORITY: u8 = 128;

/// The name of a client's channel.
pub fn stress_channel_name() -> (r: &'static str)
    ensures
        r@ == "stress"@,
{
    "stress"
}

/// Where the run stands: what the program was last told to do.
#[derive(Debug, Clone, Copy, PartialEq, Eq, Structural)]
pub enum StressPhase {
    /// Nothing has been done yet.
    Idle,
    Connecting,
    /// It is being asked how long the client has waited for its connection.
    AskingHandshakeTime,
    HandshakePolling,
    HandshakeUpdating,
    /// It is being asked whether the client is connected.
    AskingHandshake,
    HandshakeSleeping,
    /// An earlier client is kept alive while another one connects.
    KeepPolling,
    KeepUpdating,
    OpeningChannel,
    Listening,
    ReportingProgress,
    /// It is being asked whether an earlier client is still connected, between two batches.
    BatchAsking,
    BatchPolling,
    BatchUpdating,
    BatchSleeping,
    ReportingConnected,
    BeginningTest,
    /// It is being asked for how long the test has run.
    AskingElapsed,
    /// It is being asked what time it is, for the turns of all clients.
    AskingNow,
    /// It is being asked whether the client whose turn it is is still connected.
    TurnAsking,
    TurnPolling,
    TurnUpdating,
    /// It is being asked whether a message can be sent.
    AskingCanSend,
    Sending,
    ReportingTotals,
    Yielding,
    BeginningDrain,
    /// It is being asked for how long the drain has lasted.
    AskingDrainTime,
    DrainAsking,
    DrainPolling,
    DrainUpdating,
    DrainYielding,
    Collecting,
    Disconnecting,
    /// The run has ended.
    Finished,
}

/// What became of what the program was told to do.
#[derive(Debug, Clone, Copy, PartialEq, Eq, Structural)]
pub enum StressInput {
    /// It is done; what it returned, if anything, does not matter.
    Done,
    /// What connecting returned.
    Connected(i32),
    /// What opening a channel returned.
    Opened(i32),
    /// The answer to a question.
    Answer(bool),
    /// A time in nanoseconds.
    Elapsed(u128),
    /// What sending returned.
    Sent(i32),
}

/// What the program is to do next. Clients go by their numbers.
#[derive(Debug, Clone, Copy, PartialEq, Eq, Structural)]
pub enum StressAction {
    /// Make a client and connect it.
    Connect(usize),
    AskHandshakeTime,
    /// Process up to so many packets.
    Poll { client: usize, batch: i32 },
    Update(usize),
    AskConnected(usize),
    /// Pause for this many nanoseconds.
    Sleep(u128),
    /// Open a channel of this mode and priority, under the name of [`stress_channel_name`].
    OpenChannel { client: usize, mode: u32, priority: u8 },
    /// Count the client's echoes and losses from now on.
    Listen(usize),
    ReportProgress { connected: usize, attempted: usize, failed: usize },
    ReportConnected { connected: usize, failed: usize },
    BeginTest,
    AskElapsed,
    AskNow,
    AskCanSend(usize),
    Send { client: usize, msg: StressMsg, channel: u8, flags: u8 },
    ReportTotals { sent: u64, cycles: u64 },
    Yield,
    BeginDrain,
    AskDrainTime,
    Collect,
    Disconnect(usize),
    Exit,
    /// End because no client is connected.
    GiveUp,
}

/// The first of the clients `from` to `to` that was connected, and `to` where none was.
pub open spec fn first_connected(slots: Seq<StressSlot>, from: int, to: int) -> int
    decreases to - from,
{
    if from >= to {
        to
    } else if slots[from].connected {
        from
    } else {
        first_connected(slots, from + 1, to)
    }
}

/// The first connected client is one of those that were asked about, and it is connected.
proof fn lemma_first_connected(slots: Seq<StressSlot>, from: int, to: int)
    requires
        0 <= from <= to,
    ensures
        from <= first_connected(slots, from, to) <= to,
        first_connected(slots, from, to) < to ==> slots[first_connected(
            slots,
            from,
            to,
        )].connected,
    decreases to - from,
{
    if from < to && !slots[from].connected {
        lemma_first_connected(slots, from + 1, to);
    }
}

/// The number of the client behind the last one of the batch that begins with `base`.
pub open spec fn behind_batch(base: int, clients: int) -> int {
    if base + CONNECT_BATCH < clients {
        base + CONNECT_BATCH
    } else {
        clients
    }
}

/// What the run consists of, for its contracts.
#[verifier::ext_equal]
pub struct StressModel {
    pub clients: int,
    pub duration_nanos: u128,
    /// The time between two messages of a client, in microseconds.
    pub interval: int,
    pub verbose: bool,
    pub phase: StressPhase,
    /// The first client of the batch that connects.
    pub base: int,
    /// The client that something is being done for.
    pub index: int,
    /// The clients whose connection was attempted.
    pub slots: Seq<StressSlot>,
    /// The time of the current turns, in nanoseconds since the start of the test.
    pub now: int,
    /// How many messages the transport has taken in the current turns.
    pub cycle_sends: int,
    /// How many messages the transport has taken.
    pub total_sent: int,
    /// How many times all clients have had their turn.
    pub cycles: int,
    /// When the next report is due.
    pub next_report: int,
}

/// Whether clients are still being connected.
pub open spec fn is_connecting(phase: StressPhase) -> bool {
    match phase {
        StressPhase::Connecting
        | StressPhase::AskingHandshakeTime
        | StressPhase::HandshakePolling
        | StressPhase::HandshakeUpdating
        | StressPhase::AskingHandshake
        | StressPhase::HandshakeSleeping
        | StressPhase::KeepPolling
        | StressPhase::KeepUpdating
        | StressPhase::OpeningChannel => true,
        _ => false,
    }
}

/// Whether a batch of clients has been connected and the next has not begun.
pub open spec fn is_between_batches(phase: StressPhase) -> bool {
    match phase {
        StressPhase::ReportingProgress
        | StressPhase::BatchAsking
        | StressPhase::BatchPolling
        | StressPhase::BatchUpdating
        | StressPhase::BatchSleeping => true,
        _ => false,
    }
}

/// Whether something is being done for the client with the current number.
pub open spec fn has_client(phase: StressPhase) -> bool {
    match phase {
        StressPhase::KeepPolling
        | StressPhase::KeepUpdating
        | StressPhase::BatchAsking
        | StressPhase::BatchPolling
        | StressPhase::BatchUpdating
        | StressPhase::TurnAsking
        | StressPhase::TurnPolling
        | StressPhase::TurnUpdating
        | StressPhase::AskingCanSend
        | StressPhase::Sending
        | StressPhase::DrainAsking
        | StressPhase::DrainPolling
        | StressPhase::DrainUpdating
        | StressPhase::Disconnecting => true,
        _ => false,
    }
}

/// Whether the clients are having their turns.
pub open spec fn is_turn(phase: StressPhase) -> bool {
    match phase {
        StressPhase::TurnAsking
        | StressPhase::TurnPolling
        | StressPhase::TurnUpdating
        | StressPhase::AskingCanSend
        | StressPhase::Sending => true,
        _ => false,
    }
}

/// Whether the test has begun: every client has been attempted and has its schedule.
pub open spec fn has_begun(phase: StressPhase) -> bool {
    match phase {
        StressPhase::Idle
        | StressPhase::Listening
        | StressPhase::ReportingConnected
        | StressPhase::Finished => false,
        _ => !is_connecting(phase) && !is_between_batches(phase),
    }
}

impl StressModel {
    /// How many of the attempted clients are connected.
    pub open spec fn connected(self) -> nat {
        connected_count(self.slots, self.slots.len() as int)
    }

    /// How many clients were attempted agrees with the phase, and so does the client that
    /// something is done for.
    pub open spec fn wf(self) -> bool {
        &&& 0 <= self.clients
        &&& self.clients + CONNECT_BATCH <= usize::MAX
        &&& 0 <= self.interval <= LONGEST_INTERVAL_MICROS
        &&& self.interval * self.clients <= u64::MAX
        &&& 0 <= self.base
        &&& 0 <= self.now <= u128::MAX - STRESS_REPORT_NANOS
        &&& (self.phase is Idle ==> self.slots.len() == 0 && self.base == 0)
        &&& (is_connecting(self.phase) ==> self.base <= self.slots.len() < behind_batch(
            self.base,
            self.clients,
        ))
        &&& (self.phase is Listening ==> self.base < self.slots.len() <= behind_batch(
            self.base,
            self.clients,
        ))
        &&& (is_between_batches(self.phase) ==> self.base < self.slots.len() == behind_batch(
            self.base,
            self.clients,
        ))
        &&& (self.phase is ReportingConnected || has_begun(self.phase) ==> self.slots.len()
            == self.clients)
        &&& (has_client(self.phase) ==> 0 <= self.index < self.slots.len()
            && self.slots[self.index].connected)
        &&& (self.phase is BatchAsking || self.phase is BatchPolling || self.phase is BatchUpdating
            ==> self.index < self.base)
        &&& (self.phase is AskingCanSend ==> self.now >= self.slots[self.index].next_send)
        &&& (is_turn(self.phase) ==> 0 <= self.cycle_sends <= self.index)
    }

    /// Whether `input` can be what became of what the program was told to do. The counters
    /// do not run out, and the clock stays below its last seconds.
    pub open spec fn expects(self, input: StressInput) -> bool {
        match self.phase {
            StressPhase::Connecting => input is Connected,
            StressPhase::OpeningChannel => input is Opened,
            StressPhase::AskingHandshake
            | StressPhase::BatchAsking
            | StressPhase::DrainAsking => input is Answer,
            StressPhase::TurnAsking => input is Answer && self.cycles < u64::MAX,
            StressPhase::TurnUpdating => input is Done && self.cycles < u64::MAX,
            StressPhase::AskingCanSend => input is Answer && self.cycles < u64::MAX,
            StressPhase::AskingHandshakeTime
            | StressPhase::AskingElapsed
            | StressPhase::AskingDrainTime => input is Elapsed,
            StressPhase::AskingNow => {
                &&& input matches StressInput::Elapsed(nanos)
                &&& nanos <= u128::MAX - STRESS_REPORT_NANOS
                &&& self.cycles < u64::MAX
            },
            StressPhase::Sending => {
                &&& input is Sent
                &&& self.slots[self.index].sent < u32::MAX
                &&& self.total_sent < u64::MAX
                &&& self.cycles < u64::MAX
            },
            StressPhase::Finished => false,
            _ => input is Done,
        }
    }

    /// The run goes on to another phase and changes nothing else.
    pub open spec fn at(self, phase: StressPhase) -> StressModel {
        StressModel { phase, ..self }
    }

    /// The run goes on to do something for client number `index`.
    pub open spec fn at_client(self, phase: StressPhase, index: int) -> StressModel {
        StressModel { phase, index, ..self }
    }

    /// The next client connects.
    pub open spec fn connect(self) -> (StressModel, StressAction) {
        (
            self.at(StressPhase::Connecting),
            StressAction::Connect(self.slots.len() as usize),
        )
    }

    /// The client that was being connected is admitted.
    pub open spec fn with_client(self, outcome: Handshake) -> StressModel {
        StressModel { slots: self.slots.push(StressSlot::of_handshake(outcome)), ..self }
    }

    /// After an attempt: the next client of the batch, or the end of the batch.
    pub open spec fn next_attempt(self) -> (StressModel, StressAction) {
        if self.slots.len() < behind_batch(self.base, self.clients) {
            self.connect()
        } else if self.verbose || (self.base + CONNECT_BATCH) % 100 == 0 || self.base
            + CONNECT_BATCH >= self.clients {
            (
                self.at(StressPhase::ReportingProgress),
                StressAction::ReportProgress {
                    connected: self.connected() as usize,
                    attempted: behind_batch(self.base, self.clients) as usize,
                    failed: (self.slots.len() - self.connected()) as usize,
                },
            )
        } else {
            self.keep_batch(0)
        }
    }

    /// Earlier clients are kept alive while one connects, from number `from` on.
    pub open spec fn keep(self, from: int) -> (StressModel, StressAction) {
        let j = first_connected(self.slots, from, self.slots.len() as int);
        if j < self.slots.len() {
            (
                self.at_client(StressPhase::KeepPolling, j),
                StressAction::Poll { client: j as usize, batch: CLIENT_BATCH },
            )
        } else {
            (self.at(StressPhase::AskingHandshakeTime), StressAction::AskHandshakeTime)
        }
    }

    /// Clients of earlier batches are kept alive, from number `from` on.
    pub open spec fn keep_batch(self, from: int) -> (StressModel, StressAction) {
        let j = first_connected(self.slots, from, self.base);
        if j < self.base {
            (
                self.at_client(StressPhase::BatchAsking, j),
                StressAction::AskConnected(j as usize),
            )
        } else {
            (self.at(StressPhase::BatchSleeping), StressAction::Sleep(BATCH_WAIT_NANOS))
        }
    }

    /// All attempts are over.
    pub open spec fn all_attempted(self) -> (StressModel, StressAction) {
        (
            self.at(StressPhase::ReportingConnected),
            StressAction::ReportConnected {
                connected: self.connected() as usize,
                failed: (self.slots.len() - self.connected()) as usize,
            },
        )
    }

    /// The turns of the clients from number `from` on.
    pub open spec fn turns(self, from: int) -> (StressModel, StressAction) {
        let j = first_connected(self.slots, from, self.clients);
        if j < self.clients {
            (
                self.at_client(StressPhase::TurnAsking, j),
                StressAction::AskConnected(j as usize),
            )
        } else {
            let done = StressModel { cycles: self.cycles + 1, ..self };
            if self.now >= self.next_report {
                (
                    StressModel {
                        phase: StressPhase::ReportingTotals,
                        next_report: self.now + STRESS_REPORT_NANOS,
                        ..done
                    },
                    StressAction::ReportTotals {
                        sent: done.total_sent as u64,
                        cycles: done.cycles as u64,
                    },
                )
            } else {
                done.turns_over()
            }
        }
    }

    /// After the turns of all clients: other threads run where nothing was sent.
    pub open spec fn turns_over(self) -> (StressModel, StressAction) {
        if self.cycle_sends == 0 {
            (self.at(StressPhase::Yielding), StressAction::Yield)
        } else {
            (self.at(StressPhase::AskingElapsed), StressAction::AskElapsed)
        }
    }

    /// The clients from number `from` on get the last echoes.
    pub open spec fn drain(self, from: int) -> (StressModel, StressAction) {
        let j = first_connected(self.slots, from, self.clients);
        if j < self.clients {
            (
                self.at_client(StressPhase::DrainAsking, j),
                StressAction::AskConnected(j as usize),
            )
        } else {
            (self.at(StressPhase::DrainYielding), StressAction::Yield)
        }
    }

    /// The clients from number `from` on disconnect.
    pub open spec fn disconnect(self, from: int) -> (StressModel, StressAction) {
        let j = first_connected(self.slots, from, self.clients);
        if j < self.clients {
            (
                self.at_client(StressPhase::Disconnecting, j),
                StressAction::Disconnect(j as usize),
            )
        } else {
            (self.at(StressPhase::Finished), StressAction::Exit)
        }
    }

    /// Packets are processed for the current client.
    pub open spec fn poll(self, phase: StressPhase) -> (StressModel, StressAction) {
        (
            self.at(phase),
            StressAction::Poll { client: self.index as usize, batch: CLIENT_BATCH },
        )
    }

    /// The current client's connection is looked after.
    pub open spec fn update(self, phase: StressPhase) -> (StressModel, StressAction) {
        (self.at(phase), StressAction::Update(self.index as usize))
    }

    /// The run after `input`, and what the program is to do.
    pub open spec fn next(self, input: StressInput) -> (StressModel, StressAction) {
        match self.phase {
            StressPhase::Idle => if self.clients > 0 {
                self.connect()
            } else {
                self.all_attempted()
            },
            StressPhase::Connecting => if input->Connected_0 >= 0 {
                (self.at(StressPhase::AskingHandshakeTime), StressAction::AskHandshakeTime)
            } else {
                self.with_client(Handshake::Refused).next_attempt()
            },
            StressPhase::AskingHandshakeTime => if input->Elapsed_0 < HANDSHAKE_LIMIT_NANOS {
                (
                    self.at(StressPhase::HandshakePolling),
                    StressAction::Poll {
                        client: self.slots.len() as usize,
                        batch: HANDSHAKE_BATCH,
                    },
                )
            } else {
                self.with_client(Handshake::TimedOut).next_attempt()
            },
            StressPhase::HandshakePolling => (
                self.at(StressPhase::HandshakeUpdating),
                StressAction::Update(self.slots.len() as usize),
            ),
            StressPhase::HandshakeUpdating => (
                self.at(StressPhase::AskingHandshake),
                StressAction::AskConnected(self.slots.len() as usize),
            ),
            StressPhase::AskingHandshake => if input->Answer_0 {
                (
                    self.at(StressPhase::OpeningChannel),
                    StressAction::OpenChannel {
                        client: self.slots.len() as usize,
                        mode: STRESS_CHANNEL_MODE,
                        priority: STRESS_CHANNEL_PRIORITY,
                    },
                )
            } else {
                (
                    self.at(StressPhase::HandshakeSleeping),
                    StressAction::Sleep(HANDSHAKE_WAIT_NANOS),
                )
            },
            StressPhase::HandshakeSleeping => self.keep(0),
            StressPhase::KeepPolling => self.update(StressPhase::KeepUpdating),
            StressPhase::KeepUpdating => self.keep(self.index + 1),
            StressPhase::OpeningChannel => {
                let admitted = self.with_client(Handshake::Channel(input->Opened_0));
                if input->Opened_0 >= 0 {
                    (
                        admitted.at(StressPhase::Listening),
                        StressAction::Listen(self.slots.len() as usize),
                    )
                } else {
                    admitted.next_attempt()
                }
            },
            StressPhase::Listening => self.next_attempt(),
            StressPhase::ReportingProgress => self.keep_batch(0),
            StressPhase::BatchAsking => if input->Answer_0 {
                self.poll(StressPhase::BatchPolling)
            } else {
                self.keep_batch(self.index + 1)
            },
            StressPhase::BatchPolling => self.update(StressPhase::BatchUpdating),
            StressPhase::BatchUpdating => self.keep_batch(self.index + 1),
            StressPhase::BatchSleeping => if self.base + CONNECT_BATCH < self.clients {
                StressModel { base: self.base + CONNECT_BATCH, ..self }.connect()
            } else {
                self.all_attempted()
            },
            StressPhase::ReportingConnected => if self.connected() == 0 {
                (self.at(StressPhase::Finished), StressAction::GiveUp)
            } else {
                (
                    StressModel {
                        phase: StressPhase::BeginningTest,
                        slots: scheduled(self.slots, self.interval),
                        ..self
                    },
                    StressAction::BeginTest,
                )
            },
            StressPhase::BeginningTest => (
                self.at(StressPhase::AskingElapsed),
                StressAction::AskElapsed,
            ),
            StressPhase::AskingElapsed => if input->Elapsed_0 < self.duration_nanos {
                (self.at(StressPhase::AskingNow), StressAction::AskNow)
            } else {
                (self.at(StressPhase::BeginningDrain), StressAction::BeginDrain)
            },
            StressPhase::AskingNow => StressModel {
                now: input->Elapsed_0 as int,
                cycle_sends: 0,
                ..self
            }.turns(0),
            StressPhase::TurnAsking => if input->Answer_0 {
                self.poll(StressPhase::TurnPolling)
            } else {
                self.turns(self.index + 1)
            },
            StressPhase::TurnPolling => self.update(StressPhase::TurnUpdating),
            StressPhase::TurnUpdating => if self.now >= self.slots[self.index].next_send {
                (
                    self.at(StressPhase::AskingCanSend),
                    StressAction::AskCanSend(self.index as usize),
                )
            } else {
                self.turns(self.index + 1)
            },
            StressPhase::AskingCanSend => {
                let slot = self.slots[self.index];
                let after = StressModel {
                    slots: self.slots.update(
                        self.index,
                        slot.to_send_at(self.now + 1000 * self.interval),
                    ),
                    ..self
                };
                if input->Answer_0 {
                    (
                        after.at(StressPhase::Sending),
                        StressAction::Send {
                            client: self.index as usize,
                            msg: slot.message(self.index),
                            channel: slot.channel(),
                            flags: 0,
                        },
                    )
                } else {
                    after.turns(self.index + 1)
                }
            },
            StressPhase::Sending => {
                let taken: int = if input->Sent_0 >= 0 {
                    1
                } else {
                    0
                };
                StressModel {
                    slots: self.slots.update(
                        self.index,
                        self.slots[self.index].counted(input->Sent_0),
                    ),
                    cycle_sends: self.cycle_sends + taken,
                    total_sent: self.total_sent + taken,
                    ..self
                }.turns(self.index + 1)
            },
            StressPhase::ReportingTotals => self.turns_over(),
            StressPhase::Yielding => (
                self.at(StressPhase::AskingElapsed),
                StressAction::AskElapsed,
            ),
            StressPhase::BeginningDrain | StressPhase::DrainYielding => (
                self.at(StressPhase::AskingDrainTime),
                StressAction::AskDrainTime,
            ),
            StressPhase::AskingDrainTime => if input->Elapsed_0 < STRESS_DRAIN_NANOS {
                self.drain(0)
            } else {
                (self.at(StressPhase::Collecting), StressAction::Collect)
            },
            StressPhase::DrainAsking => if input->Answer_0 {
                self.poll(StressPhase::DrainPolling)
            } else {
                self.drain(self.index + 1)
            },
            StressPhase::DrainPolling => self.update(StressPhase::DrainUpdating),
            StressPhase::DrainUpdating => self.drain(self.index + 1),
            StressPhase::Collecting => self.disconnect(0),
            StressPhase::Disconnecting => self.disconnect(self.index + 1),
            StressPhase::Finished => (self, StressAction::Exit),
        }
    }
}

/// The run of the stress test.
#[derive(Debug)]
pub struct StressRun {
    pub clients: usize,
    pub duration_nanos: u128,
    pub interval: u64,
    pub verbose: bool,
    pub phase: StressPhase,
    pub base: usize,
    pub index: usize,
    pub roster: StressRoster,
    pub now: u128,
    pub cycle_sends: u64,
    pub total_sent: u64,
    pub cycles: u64,
    pub next_report: u128,
}

impl View for StressRun {
    type V = StressModel;

    open spec fn view(&self) -> StressModel {
        StressModel {
            clients: self.clients as int,
            duration_nanos: self.duration_nanos,
            interval: self.interval as int,
            verbose: self.verbose,
            phase: self.phase,
            base: self.base as int,
            index: self.index as int,
            slots: self.roster.slots@,
            now: self.now as int,
            cycle_sends: self.cycle_sends as int,
            total_sent: self.total_sent as int,
            cycles: self.cycles as int,
            next_report: self.next_report as int,
        }
    }
}

/// A change of one client that keeps whether it is connected keeps the count.
proof fn lemma_update_keeps_count(slots: Seq<StressSlot>, index: int, slot: StressSlot)
    requires
        0 <= index < slots.len(),
        slot.connected == slots[index].connected,
    ensures
        connected_count(slots.update(index, slot), slots.len() as int) == connected_count(
            slots,
            slots.len() as int,
        ),
{
    lemma_connected_count_same(slots, slots.update(index, slot), slots.len() as int);
}

impl StressRun {
    /// The parts of the run agree with each other and with the phase.
    pub open spec fn wf(self) -> bool {
        self.roster.wf() && self@.wf()
    }

    /// A run of so many clients, each of which sends a message every `interval`
    /// microseconds, for a time given in nanoseconds.
    pub fn new(clients: usize, duration_nanos: u128, interval: u64, verbose: bool) -> (r: StressRun)
        requires
            clients + CONNECT_BATCH <= usize::MAX,
            interval <= LONGEST_INTERVAL_MICROS,
            interval * clients <= u64::MAX,
        ensures
            r.wf(),
            r@ == (StressModel {
                clients: clients as int,
                duration_nanos,
                interval: interval as int,
                verbose,
                phase: StressPhase::Idle,
                base: 0,
                index: 0,
                slots: Seq::empty(),
                now: 0,
                cycle_sends: 0,
                total_sent: 0,
                cycles: 0,
                next_report: STRESS_REPORT_NANOS as int,
            }),
    {
        StressRun {
            clients,
            duration_nanos,
            interval,
            verbose,
            phase: StressPhase::Idle,
            base: 0,
            index: 0,
            roster: StressRoster::new(),
            now: 0,
            cycle_sends: 0,
            total_sent: 0,
            cycles: 0,
            next_report: STRESS_REPORT_NANOS,
        }
    }

    /// The first of the clients `from` to `to` that was connected, and `to` where none was.
    fn next_connected(&self, from: usize, to: usize) -> (r: usize)
        requires
            from <= to <= self.roster.slots@.len(),
        ensures
            r == first_connected(self@.slots, from as int, to as int),
            from <= r <= to,
            r < to ==> self@.slots[r as int].connected,
    {
        let mut j: usize = from;
        proof {
            lemma_first_connected(self@.slots, from as int, to as int);
        }
        while j < to && !self.roster.slots[j].connected
            invariant
                from <= j <= to <= self.roster.slots@.len(),
                first_connected(self@.slots, from as int, to as int) == first_connected(
                    self@.slots,
                    j as int,
                    to as int,
                ),
            decreases to - j,
        {
            j += 1;
        }
        j
    }

    /// Connects the next client.
    fn connect(&mut self) -> (r: StressAction)
        requires
            old(self).roster.wf(),
        ensures
            final(self).roster.wf(),
            (final(self)@, r) == old(self)@.connect(),
    {
        self.phase = StressPhase::Connecting;
        StressAction::Connect(self.roster.slots.len())
    }

    /// Goes on after an attempt to connect.
    fn next_attempt(&mut self) -> (r: StressAction)
        requires
            old(self).roster.wf(),
            old(self).clients + CONNECT_BATCH <= usize::MAX,
            old(self).base < old(self).clients,
            old(self).base <= old(self).roster.slots@.len(),
        ensures
            final(self).roster.wf(),
            (final(self)@, r) == old(self)@.next_attempt(),
    {
        let end: usize = batch_end(self.base, self.clients);
        if self.roster.slots.len() < end {
            self.connect()
        } else if progress_is_due(self.verbose, self.base, self.clients) {
            self.phase = StressPhase::ReportingProgress;
            StressAction::ReportProgress {
                connected: self.roster.connect_ok,
                attempted: end,
                failed: self.roster.connect_fail,
            }
        } else {
            self.keep_batch(0)
        }
    }

    /// Keeps earlier clients alive while one connects.
    fn keep(&mut self, from: usize) -> (r: StressAction)
        requires
            old(self).roster.wf(),
            from <= old(self).roster.slots@.len(),
        ensures
            final(self).roster.wf(),
            (final(self)@, r) == old(self)@.keep(from as int),
    {
        let count: usize = self.roster.slots.len();
        let j: usize = self.next_connected(from, count);
        if j < count {
            self.index = j;
            self.phase = StressPhase::KeepPolling;
            StressAction::Poll { client: j, batch: CLIENT_BATCH }
        } else {
            self.phase = StressPhase::AskingHandshakeTime;
            StressAction::AskHandshakeTime
        }
    }

    /// Keeps clients of earlier batches alive.
    fn keep_batch(&mut self, from: usize) -> (r: StressAction)
        requires
            old(self).roster.wf(),
            from <= old(self).base <= old(self).roster.slots@.len(),
        ensures
            final(self).roster.wf(),
            (final(self)@, r) == old(self)@.keep_batch(from as int),
    {
        let j: usize = self.next_connected(from, self.base);
        if j < self.base {
            self.index = j;
            self.phase = StressPhase::BatchAsking;
            StressAction::AskConnected(j)
        } else {
            self.phase = StressPhase::BatchSleeping;
            StressAction::Sleep(BATCH_WAIT_NANOS)
        }
    }

    /// Ends the attempts.
    fn all_attempted(&mut self) -> (r: StressAction)
        requires
            old(self).roster.wf(),
        ensures
            final(self).roster.wf(),
            (final(self)@, r) == old(self)@.all_attempted(),
    {
        self.phase = StressPhase::ReportingConnected;
        StressAction::ReportConnected {
            connected: self.roster.connect_ok,
            failed: self.roster.connect_fail,
        }
    }

    /// Goes on with the turns of the clients.
    fn turns(&mut self, from: usize) -> (r: StressAction)
        requires
            old(self).roster.wf(),
            old(self).roster.slots@.len() == old(self).clients,
            from <= old(self).clients,
            old(self).cycles < u64::MAX,
            old(self).now <= u128::MAX - STRESS_REPORT_NANOS,
        ensures
            final(self).roster.wf(),
            (final(self)@, r) == old(self)@.turns(from as int),
    {
        let j: usize = self.next_connected(from, self.clients);
        if j < self.clients {
            self.index = j;
            self.phase = StressPhase::TurnAsking;
            StressAction::AskConnected(j)
        } else {
            self.cycles = self.cycles + 1;
            if self.now >= self.next_report {
                self.next_report = self.now + STRESS_REPORT_NANOS;
                self.phase = StressPhase::ReportingTotals;
                StressAction::ReportTotals { sent: self.total_sent, cycles: self.cycles }
            } else {
                self.turns_over()
            }
        }
    }

    /// Ends the turns of the clients.
    fn turns_over(&mut self) -> (r: StressAction)
        requires
            old(self).roster.wf(),
        ensures
            final(self).roster.wf(),
            (final(self)@, r) == old(self)@.turns_over(),
    {
        if self.cycle_sends == 0 {
            self.phase = StressPhase::Yielding;
            StressAction::Yield
        } else {
            self.phase = StressPhase::AskingElapsed;
            StressAction::AskElapsed
        }
    }

    /// Goes on with the drain.
    fn drain(&mut self, from: usize) -> (r: StressAction)
        requires
            old(self).roster.wf(),
            old(self).roster.slots@.len() == old(self).clients,
            from <= old(self).clients,
        ensures
            final(self).roster.wf(),
            (final(self)@, r) == old(self)@.drain(from as int),
    {
        let j: usize = self.next_connected(from, self.clients);
        if j < self.clients {
            self.index = j;
            self.phase = StressPhase::DrainAsking;
            StressAction::AskConnected(j)
        } else {
            self.phase = StressPhase::DrainYielding;
            StressAction::Yield
        }
    }

    /// Goes on with the disconnects.
    fn disconnect(&mut self, from: usize) -> (r: StressAction)
        requires
            old(self).roster.wf(),
            old(self).roster.slots@.len() == old(self).clients,
            from <= old(self).clients,
        ensures
            final(self).roster.wf(),
            (final(self)@, r) == old(self)@.disconnect(from as int),
    {
        let j: usize = self.next_connected(from, self.clients);
        if j < self.clients {
            self.index = j;
            self.phase = StressPhase::Disconnecting;
            StressAction::Disconnect(j)
        } else {
            self.phase = StressPhase::Finished;
            StressAction::Exit
        }
    }

    /// Processes packets for the current client.
    fn poll(&mut self, phase: StressPhase) -> (r: StressAction)
        requires
            old(self).roster.wf(),
        ensures
            final(self).roster.wf(),
            (final(self)@, r) == old(self)@.poll(phase),
    {
        self.phase = phase;
        StressAction::Poll { client: self.index, batch: CLIENT_BATCH }
    }

    /// Looks after the current client's connection.
    fn update(&mut self, phase: StressPhase) -> (r: StressAction)
        requires
            old(self).roster.wf(),
        ensures
            final(self).roster.wf(),
            (final(self)@, r) == old(self)@.update(phase),
    {
        self.phase = phase;
        StressAction::Update(self.index)
    }

    /// Changes one client.
    fn set_slot(&mut self, index: usize, slot: StressSlot)
        requires
            old(self).roster.wf(),
            index < old(self).roster.slots@.len(),
            slot.connected == old(self).roster.slots@[index as int].connected,
        ensures
            final(self).roster.wf(),
            final(self)@ == (StressModel {
                slots: old(self)@.slots.update(index as int, slot),
                ..old(self)@
            }),
    {
        proof {
            lemma_update_keeps_count(self.roster.slots@, index as int, slot);
        }
        self.roster.slots.set(index, slot);
    }

    /// Takes what became of the last action while clients connect and decides the next one.
    fn step_connect(&mut self, input: StressInput) -> (r: StressAction)
        requires
            old(self).wf(),
            old(self)@.expects(input),
            !has_begun(old(self).phase),
            old(self).phase !is ReportingConnected,
        ensures
            final(self).roster.wf(),
            final(self)@ == old(self)@.next(input).0,
            r == old(self)@.next(input).1,
    {
        match (self.phase, input) {
            (StressPhase::Idle, _) => {
                if self.clients > 0 {
                    self.connect()
                } else {
                    self.all_attempted()
                }
            },
            (StressPhase::Connecting, StressInput::Connected(code)) => {
                if is_accepted(code) {
                    self.phase = StressPhase::AskingHandshakeTime;
                    StressAction::AskHandshakeTime
                } else {
                    self.roster.admit_client(Handshake::Refused);
                    self.next_attempt()
                }
            },
            (StressPhase::AskingHandshakeTime, StressInput::Elapsed(nanos)) => {
                if nanos < HANDSHAKE_LIMIT_NANOS {
                    self.phase = StressPhase::HandshakePolling;
                    StressAction::Poll {
                        client: self.roster.slots.len(),
                        batch: HANDSHAKE_BATCH,
                    }
                } else {
                    self.roster.admit_client(Handshake::TimedOut);
                    self.next_attempt()
                }
            },
            (StressPhase::HandshakePolling, _) => {
                self.phase = StressPhase::HandshakeUpdating;
                StressAction::Update(self.roster.slots.len())
            },
            (StressPhase::HandshakeUpdating, _) => {
                self.phase = StressPhase::AskingHandshake;
                StressAction::AskConnected(self.roster.slots.len())
            },
            (StressPhase::AskingHandshake, StressInput::Answer(connected)) => {
                if connected {
                    self.phase = StressPhase::OpeningChannel;
                    StressAction::OpenChannel {
                        client: self.roster.slots.len(),
                        mode: STRESS_CHANNEL_MODE,
                        priority: STRESS_CHANNEL_PRIORITY,
                    }
                } else {
                    self.phase = StressPhase::HandshakeSleeping;
                    StressAction::Sleep(HANDSHAKE_WAIT_NANOS)
                }
            },
            (StressPhase::HandshakeSleeping, _) => self.keep(0),
            (StressPhase::KeepPolling, _) => self.update(StressPhase::KeepUpdating),
            (StressPhase::KeepUpdating, _) => self.keep(self.index + 1),
            (StressPhase::OpeningChannel, StressInput::Opened(id)) => {
                let client: usize = self.roster.slots.len();
                self.roster.admit_client(Handshake::Channel(id));
                if id >= 0 {
                    self.phase = StressPhase::Listening;
                    StressAction::Listen(client)
                } else {
                    self.next_attempt()
                }
            },
            (StressPhase::Listening, _) => self.next_attempt(),
            (StressPhase::ReportingProgress, _) => self.keep_batch(0),
            (StressPhase::BatchAsking, StressInput::Answer(connected)) => {
                if connected {
                    self.poll(StressPhase::BatchPolling)
                } else {
                    self.keep_batch(self.index + 1)
                }
            },
            (StressPhase::BatchPolling, _) => self.update(StressPhase::BatchUpdating),
            (StressPhase::BatchUpdating, _) => self.keep_batch(self.index + 1),
            (StressPhase::BatchSleeping, _) => {
                if self.base + CONNECT_BATCH < self.clients {
                    self.base = self.base + CONNECT_BATCH;
                    self.connect()
                } else {
                    self.all_attempted()
                }
            },
            _ => StressAction::Exit,
        }
    }

    /// Takes what became of the last action once the test runs and decides the next one.
    fn step_test(&mut self, input: StressInput) -> (r: StressAction)
        requires
            old(self).wf(),
            old(self)@.expects(input),
            has_begun(old(self).phase) || old(self).phase is ReportingConnected,
        ensures
            final(self).roster.wf(),
            final(self)@ == old(self)@.next(input).0,
            r == old(self)@.next(input).1,
    {
        match (self.phase, input) {
            (StressPhase::ReportingConnected, _) => {
                if self.roster.connect_ok == 0 {
                    self.phase = StressPhase::Finished;
                    StressAction::GiveUp
                } else {
                    self.roster.schedule(self.interval);
                    self.phase = StressPhase::BeginningTest;
                    StressAction::BeginTest
                }
            },
            (StressPhase::AskingElapsed, StressInput::Elapsed(nanos)) => {
                if nanos < self.duration_nanos {
                    self.phase = StressPhase::AskingNow;
                    StressAction::AskNow
                } else {
                    self.phase = StressPhase::BeginningDrain;
                    StressAction::BeginDrain
                }
            },
            (StressPhase::AskingNow, StressInput::Elapsed(nanos)) => {
                self.now = nanos;
                self.cycle_sends = 0;
                self.turns(0)
            },
            (StressPhase::TurnAsking, StressInput::Answer(connected)) => {
                if connected {
                    self.poll(StressPhase::TurnPolling)
                } else {
                    self.turns(self.index + 1)
                }
            },
            (StressPhase::TurnPolling, _) => self.update(StressPhase::TurnUpdating),
            (StressPhase::TurnUpdating, _) => {
                if self.roster.slots[self.index].is_due(self.now) {
                    self.phase = StressPhase::AskingCanSend;
                    StressAction::AskCanSend(self.index)
                } else {
                    self.turns(self.index + 1)
                }
            },
            (StressPhase::AskingCanSend, StressInput::Answer(can_send)) => {
                let client: usize = self.index;
                let mut slot: StressSlot = self.roster.slots[client];
                let interval: u128 = 1000 * (self.interval as u128);
                let turn = slot.take_turn(client as u64, self.now, interval, can_send);
                self.set_slot(client, slot);
                match turn {
                    Some((msg, channel)) => {
                        self.phase = StressPhase::Sending;
                        StressAction::Send { client, msg, channel, flags: 0 }
                    },
                    None => self.turns(client + 1),
                }
            },
            (StressPhase::Sending, StressInput::Sent(code)) => {
                let client: usize = self.index;
                let mut slot: StressSlot = self.roster.slots[client];
                if slot.record_sent(code) {
                    self.cycle_sends = self.cycle_sends + 1;
                    self.total_sent = self.total_sent + 1;
                }
                self.set_slot(client, slot);
                self.turns(client + 1)
            },
            (StressPhase::ReportingTotals, _) => self.turns_over(),
            (StressPhase::BeginningTest, _) | (StressPhase::Yielding, _) => {
                self.phase = StressPhase::AskingElapsed;
                StressAction::AskElapsed
            },
            (StressPhase::BeginningDrain, _) | (StressPhase::DrainYielding, _) => {
                self.phase = StressPhase::AskingDrainTime;
                StressAction::AskDrainTime
            },
            (StressPhase::AskingDrainTime, StressInput::Elapsed(nanos)) => {
                if nanos < STRESS_DRAIN_NANOS {
                    self.drain(0)
                } else {
                    self.phase = StressPhase::Collecting;
                    StressAction::Collect
                }
            },
            (StressPhase::DrainAsking, StressInput::Answer(connected)) => {
                if connected {
                    self.poll(StressPhase::DrainPolling)
                } else {
                    self.drain(self.index + 1)
                }
            },
            (StressPhase::DrainPolling, _) => self.update(StressPhase::DrainUpdating),
            (StressPhase::DrainUpdating, _) => self.drain(self.index + 1),
            (StressPhase::Collecting, _) => self.disconnect(0),
            (StressPhase::Disconnecting, _) => self.disconnect(self.index + 1),
            _ => StressAction::Exit,
        }
    }

    /// Takes what became of the last action and decides the next one.
    pub fn step(&mut self, input: StressInput) -> (r: StressAction)
        requires
            old(self).wf(),
            old(self)@.expects(input),
        ensures
            final(self).wf(),
            final(self)@ == old(self)@.next(input).0,
            r == old(self)@.next(input).1,
    {
        proof {
            lemma_next_wf(self@, input);
        }
        match self.phase {
            StressPhase::Idle
            | StressPhase::Connecting
            | StressPhase::AskingHandshakeTime
            | StressPhase::HandshakePolling
            | StressPhase::HandshakeUpdating
            | StressPhase::AskingHandshake
            | StressPhase::HandshakeSleeping
            | StressPhase::KeepPolling
            | StressPhase::KeepUpdating
            | StressPhase::OpeningChannel
            | StressPhase::Listening
            | StressPhase::ReportingProgress
            | StressPhase::BatchAsking
            | StressPhase::BatchPolling
            | StressPhase::BatchUpdating
            | StressPhase::BatchSleeping => self.step_connect(input),
            _ => self.step_test(input),
        }
    }
}

/// A run stays well formed.
pub proof fn lemma_next_wf(run: StressModel, input: StressInput)
    requires
        run.wf(),
        run.expects(input),
    ensures
        run.next(input).0.wf(),
{
    let next = run.next(input).0;
    lemma_first_connected(run.slots, 0, run.slots.len() as int);
    if run.base <= run.slots.len() {
        lemma_first_connected(run.slots, 0, run.base);
    }
    if has_client(run.phase) {
        lemma_first_connected(run.slots, run.index + 1, run.slots.len() as int);
        if run.index < run.base {
            lemma_first_connected(run.slots, run.index + 1, run.base);
        }
        lemma_first_connected(next.slots, run.index + 1, run.slots.len() as int);
    }
    lemma_first_connected(next.slots, 0, next.slots.len() as int);
    if next.base <= next.slots.len() {
        lemma_first_connected(next.slots, 0, next.base);
    }
}

/// Whether each input is one that the run expects when it comes.
pub open spec fn all_expected(run: StressModel, inputs: Seq<StressInput>) -> bool
    decreases inputs.len(),
{
    inputs.len() > 0 ==> run.expects(inputs[0]) && all_expected(
        run.next(inputs[0]).0,
        inputs.drop_first(),
    )
}

/// The run after a series of inputs.
pub open spec fn end(run: StressModel, inputs: Seq<StressInput>) -> StressModel
    decreases inputs.len(),
{
    if inputs.len() == 0 {
        run
    } else {
        end(run.next(inputs[0]).0, inputs.drop_first())
    }
}

/// The numbers of the clients that are connected in a series of inputs, in order.
pub open spec fn attempts(run: StressModel, inputs: Seq<StressInput>) -> Seq<usize>
    decreases inputs.len(),
{
    if inputs.len() == 0 {
        Seq::empty()
    } else {
        let (after, action) = run.next(inputs[0]);
        let rest = attempts(after, inputs.drop_first());
        match action {
            StressAction::Connect(client) => seq![client] + rest,
            _ => rest,
        }
    }
}

/// How many clients have been attempted or are being so.
pub open spec fn begun_attempts(run: StressModel) -> int {
    run.slots.len() + if is_connecting(run.phase) {
        1int
    } else {
        0
    }
}

/// One input begins at most one attempt, with the next client.
proof fn lemma_attempt(run: StressModel, input: StressInput)
    requires
        run.wf(),
        run.expects(input),
    ensures
        run.next(input).1 matches StressAction::Connect(client) ==> client == begun_attempts(run)
            && begun_attempts(run.next(input).0) == begun_attempts(run) + 1,
        run.next(input).1 !is Connect ==> begun_attempts(run.next(input).0) == begun_attempts(run),
{
}

/// The clients are attempted one after the other, each once.
pub proof fn law_each_client_is_attempted_once(run: StressModel, inputs: Seq<StressInput>)
    requires
        run.wf(),
        all_expected(run, inputs),
    ensures
        forall|k: int|
            0 <= k < attempts(run, inputs).len() ==> #[trigger] attempts(run, inputs)[k]
                == begun_attempts(run) + k,
        begun_attempts(end(run, inputs)) == begun_attempts(run) + attempts(run, inputs).len(),
    decreases inputs.len(),
{
    if inputs.len() > 0 {
        let (after, action) = run.next(inputs[0]);
        let rest = inputs.drop_first();
        lemma_next_wf(run, inputs[0]);
        lemma_attempt(run, inputs[0]);
        law_each_client_is_attempted_once(after, rest);
        let tail = attempts(after, rest);
        let all = attempts(run, inputs);
        assert forall|k: int| 0 <= k < all.len() implies #[trigger] all[k] == begun_attempts(run)
            + k by {
            if all.len() > tail.len() && k > 0 {
                assert(all[k] == tail[k - 1]);
            }
        }
    }
}

/// The messages that the first `k` clients have sent.
pub open spec fn sent_by(slots: Seq<StressSlot>, k: int) -> int
    decreases k,
{
    if k <= 0 {
        0
    } else {
        sent_by(slots, k - 1) + slots[k - 1].sent
    }
}

/// The messages of clients add up the same where each has sent the same number.
proof fn lemma_sent_by_same(a: Seq<StressSlot>, b: Seq<StressSlot>, k: int)
    requires
        0 <= k <= a.len(),
        k <= b.len(),
        forall|i: int| 0 <= i < k ==> (#[trigger] a[i]).sent == b[i].sent,
    ensures
        sent_by(a, k) == sent_by(b, k),
    decreases k,
{
    if k > 0 {
        lemma_sent_by_same(a, b, k - 1);
        assert(a[k - 1].sent == b[k - 1].sent);
    }
}

/// One more message of one client is one more message of all.
proof fn lemma_sent_by_update(slots: Seq<StressSlot>, index: int, slot: StressSlot, k: int)
    requires
        0 <= k <= slots.len(),
        0 <= index < slots.len(),
    ensures
        sent_by(slots.update(index, slot), k) == sent_by(slots, k) + if index < k {
            slot.sent - slots[index].sent
        } else {
            0
        },
    decreases k,
{
    if k > 0 {
        lemma_sent_by_update(slots, index, slot, k - 1);
    }
}

/// The count of all messages is the sum of the counts of the clients.
pub proof fn law_totals_agree(run: StressModel, inputs: Seq<StressInput>)
    requires
        run.wf(),
        all_expected(run, inputs),
        run.total_sent == sent_by(run.slots, run.slots.len() as int),
    ensures
        end(run, inputs).total_sent == sent_by(
            end(run, inputs).slots,
            end(run, inputs).slots.len() as int,
        ),
    decreases inputs.len(),
{
    if inputs.len() > 0 {
        let after = run.next(inputs[0]).0;
        let n = run.slots.len() as int;
        lemma_next_wf(run, inputs[0]);
        assert(after.total_sent == sent_by(after.slots, after.slots.len() as int)) by {
            if after.slots.len() == n + 1 {
                lemma_sent_by_same(run.slots, after.slots, n);
            } else if run.phase is Sending || run.phase is AskingCanSend {
                lemma_sent_by_update(run.slots, run.index, after.slots[run.index], n);
                assert(after.slots =~= run.slots.update(run.index, after.slots[run.index]));
            } else {
                lemma_sent_by_same(run.slots, after.slots, n);
            }
        }
        law_totals_agree(after, inputs.drop_first());
    }
}

/// The times of the messages of one client in a series of inputs.
pub open spec fn times_sent(run: StressModel, inputs: Seq<StressInput>, client: int) -> Seq<int>
    decreases inputs.len(),
{
    if inputs.len() == 0 {
        Seq::empty()
    } else {
        let (after, action) = run.next(inputs[0]);
        let rest = times_sent(after, inputs.drop_first(), client);
        match action {
            StressAction::Send { client: c, .. } if c == client => seq![run.now] + rest,
            _ => rest,
        }
    }
}

/// No client sends above its rate: it sends nothing before its time has come, and between
/// two of its messages there is at least its interval.
pub proof fn law_rate_is_kept(run: StressModel, inputs: Seq<StressInput>, client: int)
    requires
        run.wf(),
        has_begun(run.phase) || run.phase is Finished,
        all_expected(run, inputs),
        0 <= client < run.slots.len(),
    ensures
        forall|k: int|
            0 <= k < times_sent(run, inputs, client).len() ==> #[trigger] times_sent(
                run,
                inputs,
                client,
            )[k] >= run.slots[client].next_send,
        forall|j: int, k: int|
            0 <= j < k < times_sent(run, inputs, client).len() ==> #[trigger] times_sent(
                run,
                inputs,
                client,
            )[j] + 1000 * run.interval <= #[trigger] times_sent(run, inputs, client)[k],
    decreases inputs.len(),
{
    if inputs.len() > 0 {
        let (after, action) = run.next(inputs[0]);
        let rest = inputs.drop_first();
        lemma_next_wf(run, inputs[0]);
        assert(after.slots[client].next_send >= run.slots[client].next_send);
        law_rate_is_kept(after, rest, client);
        let tail = times_sent(after, rest, client);
        let all = times_sent(run, inputs, client);
        if all.len() > tail.len() {
            assert(all =~= seq![run.now] + tail);
            assert forall|j: int, k: int| 0 <= j < k < all.len() implies #[trigger] all[j] + 1000
                * run.interval <= #[trigger] all[k] by {
                assert(all[k] == tail[k - 1]);
                if j > 0 {
                    assert(all[j] == tail[j - 1]);
                }
            }
            assert forall|k: int| 0 <= k < all.len() implies #[trigger] all[k]
                >= run.slots[client].next_send by {
                if k > 0 {
                    assert(all[k] == tail[k - 1]);
                }
            }
        }
    }
}

/// A message carries its client's number and how many messages the transport has taken
/// from that client, and goes to that client's channel with no flags, at or after the
/// client's time.
pub proof fn law_message(run: StressModel, input: StressInput)
    requires
        run.wf(),
        run.expects(input),
        run.next(input).1 is Send,
    ensures
        ({
            let slot = run.slots[run.index];
            &&& input == StressInput::Answer(true)
            &&& run.next(input).1 == StressAction::Send {
                client: run.index as usize,
                msg: slot.message(run.index),
                channel: slot.channel(),
                flags: 0,
            }
            &&& slot.connected
            &&& run.now >= slot.next_send
        }),
{
}

/// The numbers of the clients that are disconnected in a series of inputs, in order.
pub open spec fn disconnects(run: StressModel, inputs: Seq<StressInput>) -> Seq<usize>
    decreases inputs.len(),
{
    if inputs.len() == 0 {
        Seq::empty()
    } else {
        let (after, action) = run.next(inputs[0]);
        let rest = disconnects(after, inputs.drop_first());
        match action {
            StressAction::Disconnect(client) => seq![client] + rest,
            _ => rest,
        }
    }
}

/// The numbers of the connected clients from `from` on, in order.
pub open spec fn connected_from(slots: Seq<StressSlot>, from: int) -> Seq<usize>
    decreases slots.len() - from,
{
    if from >= slots.len() {
        Seq::empty()
    } else if slots[from].connected {
        seq![from as usize] + connected_from(slots, from + 1)
    } else {
        connected_from(slots, from + 1)
    }
}

/// The connected clients begin with the first of them.
proof fn lemma_connected_from(slots: Seq<StressSlot>, from: int)
    requires
        0 <= from <= slots.len(),
    ensures
        ({
            let j = first_connected(slots, from, slots.len() as int);
            connected_from(slots, from) == if j < slots.len() {
                seq![j as usize] + connected_from(slots, j + 1)
            } else {
                Seq::empty()
            }
        }),
    decreases slots.len() - from,
{
    if from < slots.len() && !slots[from].connected {
        lemma_connected_from(slots, from + 1);
    }
}

/// A run that ends after the test has disconnected every client that was connected, once
/// and in order.
pub proof fn law_all_disconnect(run: StressModel, inputs: Seq<StressInput>)
    requires
        run.wf(),
        run.phase is Collecting || run.phase is Disconnecting,
        all_expected(run, inputs),
        end(run, inputs).phase is Finished,
    ensures
        disconnects(run, inputs) == connected_from(
            run.slots,
            if run.phase is Collecting {
                0
            } else {
                run.index + 1
            },
        ),
    decreases inputs.len(),
{
    if inputs.len() > 0 {
        let from: int = if run.phase is Collecting {
            0
        } else {
            run.index + 1
        };
        let after = run.next(inputs[0]).0;
        let rest = inputs.drop_first();
        lemma_next_wf(run, inputs[0]);
        lemma_first_connected(run.slots, from, run.clients);
        lemma_connected_from(run.slots, from);
        if after.phase is Disconnecting {
            law_all_disconnect(after, rest);
        } else {
            assert(all_expected(after, rest));
            assert(rest.len() == 0);
            assert(disconnects(after, rest) == Seq::<usize>::empty());
        }
    }
}

} // verus!

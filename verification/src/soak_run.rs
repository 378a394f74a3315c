//! The run of the soak test's client: connect, send on all streams for a while, wait for
//! the last echoes, disconnect.

use crate::error::{check_done, is_accepted, EntError, ErrorCodes};
#[allow(unused_imports)]
use crate::error::{first_match, law_code_is_kept};
#[allow(unused_imports)]
use crate::soak::{channel_of, is_fragmented};
use crate::soak::{
    drain_is_done, stream_channel, stream_is_fragmented, DRAIN_LIMIT_NANOS, NUM_STREAMS,
};
use vstd::prelude::*;

verus! {

/// The most packets that are processed at once while the client waits for its connection.
pub const SOAK_WAIT_BATCH: i32 = 256;

/// The most packets that are processed at once while the client sends and drains.
pub const SOAK_POLL_BATCH: i32 = 4096;

/// Pause while the client waits for its connection, in nanoseconds: 10 ms.
pub const SOAK_WAIT_NANOS: u128 = 10_000_000;

/// The longest time that the client waits for its connection, in nanoseconds: 10 s.
pub const SOAK_CONNECT_LIMIT_NANOS: u128 = 10_000_000_000;

/// Pause while the transport takes nothing, in nanoseconds: 100 us.
pub const SOAK_PAUSE_NANOS: u128 = 100_000;

/// Pause between two rounds of the drain, in nanoseconds: 5 ms.
pub const SOAK_DRAIN_NANOS: u128 = 5_000_000;

/// The time between two reports, in nanoseconds: 2 s.
pub const SOAK_REPORT_NANOS: u128 = 2_000_000_000;

/// The number of rounds after which the drain looks for new echoes.
pub const SOAK_DRAIN_ROUNDS: u32 = 200;

/// Where the run stands: what the client was last told to do.
#[derive(Debug, Clone, Copy, PartialEq, Eq, Structural)]
pub enum SoakPhase {
    /// Nothing has been done yet.
    Idle,
    RegisteringChannels,
    EnablingRetransmit,
    InstallingCallbacks,
    Connecting,
    /// It is being asked whether the connection stands.
    AskingConnected,
    WaitPolling,
    WaitUpdating,
    WaitSleeping,
    /// It is being asked how long the client has waited.
    AskingWaited,
    /// It is being asked for how long the client has sent.
    AskingSendTime,
    Polling,
    Updating,
    /// It is being asked whether a pass over the streams can begin.
    AskingReady,
    Pausing,
    /// It is being asked whether a message can be sent on the current stream.
    AskingCanSend,
    /// It is being asked whether long messages are held back.
    AskingThrottled,
    Sending,
    /// It is being asked how long the last report is past.
    AskingReportTime,
    Reporting,
    DrainPolling,
    DrainUpdating,
    DrainSleeping,
    /// It is being asked how many echoes there are and how long the drain has lasted.
    AskingEchoes,
    ReportingDrain,
    Disconnecting,
    /// The run has ended, after the disconnect or because the client waited too long.
    Finished,
    /// The run has ended because the connection was refused.
    Failed,
}

/// What became of what the client was told to do.
#[derive(Debug, Clone, Copy, PartialEq, Eq, Structural)]
pub enum SoakInput {
    /// It is done; what it returned, if anything, does not matter.
    Done,
    /// What connecting returned.
    Connected(i32),
    /// The answer to a question.
    Answer(bool),
    /// A time in nanoseconds.
    Elapsed(u128),
    /// What sending returned.
    Sent(i32),
    /// The number of echoes on all streams, and how long the drain has lasted.
    Echoes { total: u64, elapsed_nanos: u128 },
}

/// What the client is to do next.
#[derive(Debug, Clone, Copy, PartialEq, Eq, Structural)]
pub enum SoakAction {
    RegisterDefaultChannels,
    EnableAutoRetransmit,
    /// Have the connect, echoes and losses noted, and fragments put together.
    InstallCallbacks,
    Connect,
    AskConnected,
    /// Process up to this many packets.
    Poll(i32),
    Update,
    /// Pause for this many nanoseconds.
    Sleep(u128),
    AskWaited,
    AskSendTime,
    AskCanSend,
    AskThrottled,
    /// Send message number `msg_id` of `stream` on this channel with these flags.
    Send { stream: usize, msg_id: u32, channel: u8, flags: u8 },
    AskReportTime,
    Report,
    AskEchoes,
    /// Tell how many echoes there are in the drain.
    ReportDrain(u64),
    Disconnect,
    /// End because the connection did not come to stand in time.
    TimeOut,
    Exit,
    /// End because the connection was refused.
    Abort(EntError),
}

/// What the run consists of, for its contracts.
#[verifier::ext_equal]
pub struct SoakModel {
    pub duration_nanos: u128,
    pub codes: ErrorCodes,
    pub phase: SoakPhase,
    /// The current stream of a pass.
    pub stream: int,
    /// How many messages were made for each stream.
    pub counters: Seq<u32>,
    /// How many messages the transport has taken.
    pub total_sent: int,
    /// How many rounds the drain has had since it last looked for echoes.
    pub rounds: int,
    /// How many echoes there were when the drain last looked.
    pub echoes_before: u64,
}

impl SoakModel {
    /// There is a counter for each stream, and the current stream is one of them wherever
    /// it matters.
    pub open spec fn wf(self) -> bool {
        &&& self.counters.len() == NUM_STREAMS
        &&& 0 <= self.stream
        &&& (self.phase is AskingCanSend || self.phase is AskingThrottled || self.phase is Sending
            ==> self.stream < NUM_STREAMS)
        &&& 0 <= self.rounds < SOAK_DRAIN_ROUNDS
    }

    /// Whether `input` can be what became of what the client was told to do. The numbers
    /// of messages do not run out.
    pub open spec fn expects(self, input: SoakInput) -> bool {
        match self.phase {
            SoakPhase::Connecting => input is Connected,
            SoakPhase::AskingConnected | SoakPhase::AskingReady => input is Answer,
            SoakPhase::AskingCanSend | SoakPhase::AskingThrottled => input is Answer
                && self.counters[self.stream] < u32::MAX,
            SoakPhase::AskingWaited
            | SoakPhase::AskingSendTime
            | SoakPhase::AskingReportTime => input is Elapsed,
            SoakPhase::Sending => input is Sent && self.total_sent < u64::MAX,
            SoakPhase::AskingEchoes => input is Echoes,
            SoakPhase::Finished | SoakPhase::Failed => false,
            _ => input is Done,
        }
    }

    /// The run goes on to another phase and changes nothing else.
    pub open spec fn at(self, phase: SoakPhase) -> SoakModel {
        SoakModel { phase, ..self }
    }

    /// The next message of the current stream is made and sent.
    pub open spec fn send(self) -> (SoakModel, SoakAction) {
        let msg_id = (self.counters[self.stream] + 1) as u32;
        (
            SoakModel {
                phase: SoakPhase::Sending,
                counters: self.counters.update(self.stream, msg_id),
                ..self
            },
            SoakAction::Send {
                stream: self.stream as usize,
                msg_id,
                channel: channel_of(self.stream) as u8,
                flags: 0,
            },
        )
    }

    /// The pass goes on with the next stream, or is over.
    pub open spec fn next_stream(self) -> (SoakModel, SoakAction) {
        let next = SoakModel { stream: self.stream + 1, ..self };
        if self.stream + 1 < NUM_STREAMS {
            (next.at(SoakPhase::AskingCanSend), SoakAction::AskCanSend)
        } else {
            (next.at(SoakPhase::AskingReportTime), SoakAction::AskReportTime)
        }
    }

    /// The run after `input`, and what the client is to do.
    pub open spec fn next(self, input: SoakInput) -> (SoakModel, SoakAction) {
        match self.phase {
            SoakPhase::Idle => (
                self.at(SoakPhase::RegisteringChannels),
                SoakAction::RegisterDefaultChannels,
            ),
            SoakPhase::RegisteringChannels => (
                self.at(SoakPhase::EnablingRetransmit),
                SoakAction::EnableAutoRetransmit,
            ),
            SoakPhase::EnablingRetransmit => (
                self.at(SoakPhase::InstallingCallbacks),
                SoakAction::InstallCallbacks,
            ),
            SoakPhase::InstallingCallbacks => (
                self.at(SoakPhase::Connecting),
                SoakAction::Connect,
            ),
            SoakPhase::Connecting => if input->Connected_0 >= 0 {
                (self.at(SoakPhase::AskingConnected), SoakAction::AskConnected)
            } else {
                (
                    self.at(SoakPhase::Failed),
                    SoakAction::Abort(first_match(self.codes.table(), input->Connected_0)),
                )
            },
            SoakPhase::AskingConnected => if input->Answer_0 {
                (self.at(SoakPhase::AskingSendTime), SoakAction::AskSendTime)
            } else {
                (self.at(SoakPhase::WaitPolling), SoakAction::Poll(SOAK_WAIT_BATCH))
            },
            SoakPhase::WaitPolling => (self.at(SoakPhase::WaitUpdating), SoakAction::Update),
            SoakPhase::WaitUpdating => (
                self.at(SoakPhase::WaitSleeping),
                SoakAction::Sleep(SOAK_WAIT_NANOS),
            ),
            SoakPhase::WaitSleeping => (self.at(SoakPhase::AskingWaited), SoakAction::AskWaited),
            SoakPhase::AskingWaited => if input->Elapsed_0 > SOAK_CONNECT_LIMIT_NANOS {
                (self.at(SoakPhase::Finished), SoakAction::TimeOut)
            } else {
                (self.at(SoakPhase::AskingConnected), SoakAction::AskConnected)
            },
            SoakPhase::AskingSendTime => if input->Elapsed_0 < self.duration_nanos {
                (self.at(SoakPhase::Polling), SoakAction::Poll(SOAK_POLL_BATCH))
            } else {
                (self.at(SoakPhase::DrainPolling), SoakAction::Poll(SOAK_POLL_BATCH))
            },
            SoakPhase::Polling => (self.at(SoakPhase::Updating), SoakAction::Update),
            SoakPhase::Updating => (self.at(SoakPhase::AskingReady), SoakAction::AskCanSend),
            SoakPhase::AskingReady => if input->Answer_0 {
                (
                    SoakModel { stream: 0, ..self }.at(SoakPhase::AskingCanSend),
                    SoakAction::AskCanSend,
                )
            } else {
                (self.at(SoakPhase::Pausing), SoakAction::Sleep(SOAK_PAUSE_NANOS))
            },
            SoakPhase::Pausing => (self.at(SoakPhase::AskingSendTime), SoakAction::AskSendTime),
            SoakPhase::AskingCanSend => if !input->Answer_0 {
                (self.at(SoakPhase::AskingReportTime), SoakAction::AskReportTime)
            } else if is_fragmented(self.stream) {
                (self.at(SoakPhase::AskingThrottled), SoakAction::AskThrottled)
            } else {
                self.send()
            },
            SoakPhase::AskingThrottled => if input->Answer_0 {
                self.next_stream()
            } else {
                self.send()
            },
            SoakPhase::Sending => SoakModel {
                total_sent: self.total_sent + if input->Sent_0 >= 0 {
                    1int
                } else {
                    0
                },
                ..self
            }.next_stream(),
            SoakPhase::AskingReportTime => if input->Elapsed_0 >= SOAK_REPORT_NANOS {
                (self.at(SoakPhase::Reporting), SoakAction::Report)
            } else {
                (self.at(SoakPhase::AskingSendTime), SoakAction::AskSendTime)
            },
            SoakPhase::Reporting => (self.at(SoakPhase::AskingSendTime), SoakAction::AskSendTime),
            SoakPhase::DrainPolling => (self.at(SoakPhase::DrainUpdating), SoakAction::Update),
            SoakPhase::DrainUpdating => (
                self.at(SoakPhase::DrainSleeping),
                SoakAction::Sleep(SOAK_DRAIN_NANOS),
            ),
            SoakPhase::DrainSleeping => if self.rounds + 1 < SOAK_DRAIN_ROUNDS {
                (
                    SoakModel { rounds: self.rounds + 1, ..self }.at(SoakPhase::DrainPolling),
                    SoakAction::Poll(SOAK_POLL_BATCH),
                )
            } else {
                (
                    SoakModel { rounds: 0, ..self }.at(SoakPhase::AskingEchoes),
                    SoakAction::AskEchoes,
                )
            },
            SoakPhase::AskingEchoes => if input->total == self.echoes_before
                || input->elapsed_nanos > DRAIN_LIMIT_NANOS {
                (self.at(SoakPhase::Disconnecting), SoakAction::Disconnect)
            } else {
                (
                    SoakModel { echoes_before: input->total, ..self }.at(
                        SoakPhase::ReportingDrain,
                    ),
                    SoakAction::ReportDrain(input->total),
                )
            },
            SoakPhase::ReportingDrain => (
                self.at(SoakPhase::DrainPolling),
                SoakAction::Poll(SOAK_POLL_BATCH),
            ),
            SoakPhase::Disconnecting => (self.at(SoakPhase::Finished), SoakAction::Exit),
            SoakPhase::Finished => (self, SoakAction::Exit),
            SoakPhase::Failed => (self, SoakAction::Exit),
        }
    }
}

/// The run of the soak test's client.
#[derive(Debug)]
pub struct SoakRun {
    pub duration_nanos: u128,
    pub codes: ErrorCodes,
    pub phase: SoakPhase,
    pub stream: usize,
    pub counters: Vec<u32>,
    pub total_sent: u64,
    pub rounds: u32,
    pub echoes_before: u64,
}

impl View for SoakRun {
    type V = SoakModel;

    open spec fn view(&self) -> SoakModel {
        SoakModel {
            duration_nanos: self.duration_nanos,
            codes: self.codes,
            phase: self.phase,
            stream: self.stream as int,
            counters: self.counters@,
            total_sent: self.total_sent as int,
            rounds: self.rounds as int,
            echoes_before: self.echoes_before,
        }
    }
}

impl SoakRun {
    /// A run that sends for a time given in nanoseconds.
    pub fn new(duration_nanos: u128, codes: ErrorCodes) -> (r: SoakRun)
        ensures
            r@.wf(),
            r@ == (SoakModel {
                duration_nanos,
                codes,
                phase: SoakPhase::Idle,
                stream: 0,
                counters: seq![0, 0, 0, 0, 0, 0],
                total_sent: 0,
                rounds: 0,
                echoes_before: 0,
            }),
    {
        SoakRun {
            duration_nanos,
            codes,
            phase: SoakPhase::Idle,
            stream: 0,
            counters: vec![0, 0, 0, 0, 0, 0],
            total_sent: 0,
            rounds: 0,
            echoes_before: 0,
        }
    }

    /// Makes the next message of the current stream and sends it.
    fn send(&mut self) -> (r: SoakAction)
        requires
            old(self)@.wf(),
            old(self).stream < NUM_STREAMS,
            old(self).counters@[old(self).stream as int] < u32::MAX,
        ensures
            (final(self)@, r) == old(self)@.send(),
    {
        let msg_id: u32 = self.counters[self.stream] + 1;
        self.counters.set(self.stream, msg_id);
        self.phase = SoakPhase::Sending;
        SoakAction::Send {
            stream: self.stream,
            msg_id,
            channel: stream_channel(self.stream),
            flags: 0,
        }
    }

    /// Goes on with the next stream.
    fn next_stream(&mut self) -> (r: SoakAction)
        requires
            old(self)@.wf(),
            old(self).stream < NUM_STREAMS,
        ensures
            (final(self)@, r) == old(self)@.next_stream(),
    {
        self.stream = self.stream + 1;
        if self.stream < NUM_STREAMS {
            self.phase = SoakPhase::AskingCanSend;
            SoakAction::AskCanSend
        } else {
            self.phase = SoakPhase::AskingReportTime;
            SoakAction::AskReportTime
        }
    }

    /// Takes what became of the last action and decides the next one.
    pub fn step(&mut self, input: SoakInput) -> (r: SoakAction)
        requires
            old(self)@.wf(),
            old(self)@.expects(input),
        ensures
            final(self)@.wf(),
            final(self)@ == old(self)@.next(input).0,
            r == old(self)@.next(input).1,
    {
        match (self.phase, input) {
            (SoakPhase::Idle, _) => {
                self.phase = SoakPhase::RegisteringChannels;
                SoakAction::RegisterDefaultChannels
            },
            (SoakPhase::RegisteringChannels, _) => {
                self.phase = SoakPhase::EnablingRetransmit;
                SoakAction::EnableAutoRetransmit
            },
            (SoakPhase::EnablingRetransmit, _) => {
                self.phase = SoakPhase::InstallingCallbacks;
                SoakAction::InstallCallbacks
            },
            (SoakPhase::InstallingCallbacks, _) => {
                self.phase = SoakPhase::Connecting;
                SoakAction::Connect
            },
            (SoakPhase::Connecting, SoakInput::Connected(code)) => {
                match check_done(code, &self.codes) {
                    Ok(_) => {
                        self.phase = SoakPhase::AskingConnected;
                        SoakAction::AskConnected
                    },
                    Err(e) => {
                        self.phase = SoakPhase::Failed;
                        SoakAction::Abort(e)
                    },
                }
            },
            (SoakPhase::AskingConnected, SoakInput::Answer(connected)) => {
                if connected {
                    self.phase = SoakPhase::AskingSendTime;
                    SoakAction::AskSendTime
                } else {
                    self.phase = SoakPhase::WaitPolling;
                    SoakAction::Poll(SOAK_WAIT_BATCH)
                }
            },
            (SoakPhase::WaitPolling, _) => {
                self.phase = SoakPhase::WaitUpdating;
                SoakAction::Update
            },
            (SoakPhase::WaitUpdating, _) => {
                self.phase = SoakPhase::WaitSleeping;
                SoakAction::Sleep(SOAK_WAIT_NANOS)
            },
            (SoakPhase::WaitSleeping, _) => {
                self.phase = SoakPhase::AskingWaited;
                SoakAction::AskWaited
            },
            (SoakPhase::AskingWaited, SoakInput::Elapsed(nanos)) => {
                if nanos > SOAK_CONNECT_LIMIT_NANOS {
                    self.phase = SoakPhase::Finished;
                    SoakAction::TimeOut
                } else {
                    self.phase = SoakPhase::AskingConnected;
                    SoakAction::AskConnected
                }
            },
            (SoakPhase::AskingSendTime, SoakInput::Elapsed(nanos)) => {
                if nanos < self.duration_nanos {
                    self.phase = SoakPhase::Polling;
                } else {
                    self.phase = SoakPhase::DrainPolling;
                }
                SoakAction::Poll(SOAK_POLL_BATCH)
            },
            (SoakPhase::Polling, _) => {
                self.phase = SoakPhase::Updating;
                SoakAction::Update
            },
            (SoakPhase::Updating, _) => {
                self.phase = SoakPhase::AskingReady;
                SoakAction::AskCanSend
            },
            (SoakPhase::AskingReady, SoakInput::Answer(ready)) => {
                if ready {
                    self.stream = 0;
                    self.phase = SoakPhase::AskingCanSend;
                    SoakAction::AskCanSend
                } else {
                    self.phase = SoakPhase::Pausing;
                    SoakAction::Sleep(SOAK_PAUSE_NANOS)
                }
            },
            (SoakPhase::AskingCanSend, SoakInput::Answer(can_send)) => {
                if !can_send {
                    self.phase = SoakPhase::AskingReportTime;
                    SoakAction::AskReportTime
                } else if stream_is_fragmented(self.stream) {
                    self.phase = SoakPhase::AskingThrottled;
                    SoakAction::AskThrottled
                } else {
                    self.send()
                }
            },
            (SoakPhase::AskingThrottled, SoakInput::Answer(throttled)) => {
                if throttled {
                    self.next_stream()
                } else {
                    self.send()
                }
            },
            (SoakPhase::Sending, SoakInput::Sent(code)) => {
                if is_accepted(code) {
                    self.total_sent = self.total_sent + 1;
                }
                self.next_stream()
            },
            (SoakPhase::AskingReportTime, SoakInput::Elapsed(nanos)) => {
                if nanos >= SOAK_REPORT_NANOS {
                    self.phase = SoakPhase::Reporting;
                    SoakAction::Report
                } else {
                    self.phase = SoakPhase::AskingSendTime;
                    SoakAction::AskSendTime
                }
            },
            (SoakPhase::Pausing, _) | (SoakPhase::Reporting, _) => {
                self.phase = SoakPhase::AskingSendTime;
                SoakAction::AskSendTime
            },
            (SoakPhase::DrainPolling, _) => {
                self.phase = SoakPhase::DrainUpdating;
                SoakAction::Update
            },
            (SoakPhase::DrainUpdating, _) => {
                self.phase = SoakPhase::DrainSleeping;
                SoakAction::Sleep(SOAK_DRAIN_NANOS)
            },
            (SoakPhase::DrainSleeping, _) => {
                if self.rounds + 1 < SOAK_DRAIN_ROUNDS {
                    self.rounds = self.rounds + 1;
                    self.phase = SoakPhase::DrainPolling;
                    SoakAction::Poll(SOAK_POLL_BATCH)
                } else {
                    self.rounds = 0;
                    self.phase = SoakPhase::AskingEchoes;
                    SoakAction::AskEchoes
                }
            },
            (SoakPhase::AskingEchoes, SoakInput::Echoes { total, elapsed_nanos }) => {
                if drain_is_done(total, self.echoes_before, elapsed_nanos) {
                    self.phase = SoakPhase::Disconnecting;
                    SoakAction::Disconnect
                } else {
                    self.echoes_before = total;
                    self.phase = SoakPhase::ReportingDrain;
                    SoakAction::ReportDrain(total)
                }
            },
            (SoakPhase::ReportingDrain, _) => {
                self.phase = SoakPhase::DrainPolling;
                SoakAction::Poll(SOAK_POLL_BATCH)
            },
            (SoakPhase::Disconnecting, _) => {
                self.phase = SoakPhase::Finished;
                SoakAction::Exit
            },
            _ => SoakAction::Exit,
        }
    }
}

/// Whether each input is one that the run expects when it comes.
pub open spec fn all_expected(run: SoakModel, inputs: Seq<SoakInput>) -> bool
    decreases inputs.len(),
{
    inputs.len() > 0 ==> run.expects(inputs[0]) && all_expected(
        run.next(inputs[0]).0,
        inputs.drop_first(),
    )
}

/// The run after a series of inputs.
pub open spec fn end(run: SoakModel, inputs: Seq<SoakInput>) -> SoakModel
    decreases inputs.len(),
{
    if inputs.len() == 0 {
        run
    } else {
        end(run.next(inputs[0]).0, inputs.drop_first())
    }
}

/// The numbers of the messages that are sent on `stream` in a series of inputs.
pub open spec fn numbers_sent(run: SoakModel, inputs: Seq<SoakInput>, stream: int) -> Seq<u32>
    decreases inputs.len(),
{
    if inputs.len() == 0 {
        Seq::empty()
    } else {
        let (after, action) = run.next(inputs[0]);
        let rest = numbers_sent(after, inputs.drop_first(), stream);
        match action {
            SoakAction::Send { stream: s, msg_id, .. } if s == stream => seq![msg_id] + rest,
            _ => rest,
        }
    }
}

/// How many messages the transport has taken in a series of inputs.
pub open spec fn accepted(inputs: Seq<SoakInput>) -> nat
    decreases inputs.len(),
{
    if inputs.len() == 0 {
        0
    } else {
        accepted(inputs.drop_first()) + match inputs[0] {
            SoakInput::Sent(code) if code >= 0 => 1nat,
            _ => 0,
        }
    }
}

/// The messages of each stream are numbered one after the other, without a gap and
/// without a repetition, from the first number that was not used.
pub proof fn law_numbers_are_consecutive(
    run: SoakModel,
    inputs: Seq<SoakInput>,
    stream: int,
)
    requires
        run.wf(),
        all_expected(run, inputs),
        0 <= stream < NUM_STREAMS,
    ensures
        forall|k: int|
            0 <= k < numbers_sent(run, inputs, stream).len() ==> #[trigger] numbers_sent(
                run,
                inputs,
                stream,
            )[k] == run.counters[stream] + 1 + k,
        end(run, inputs).counters[stream] == run.counters[stream] + numbers_sent(
            run,
            inputs,
            stream,
        ).len(),
    decreases inputs.len(),
{
    if inputs.len() > 0 {
        let (after, action) = run.next(inputs[0]);
        let rest = inputs.drop_first();
        lemma_next_wf(run, inputs[0]);
        law_numbers_are_consecutive(after, rest, stream);
        let tail = numbers_sent(after, rest, stream);
        let all = numbers_sent(run, inputs, stream);
        assert forall|k: int| 0 <= k < all.len() implies #[trigger] all[k] == run.counters[stream]
            + 1 + k by {
            if all.len() > tail.len() && k > 0 {
                assert(all[k] == tail[k - 1]);
            }
        }
    }
}

/// A run stays well formed.
proof fn lemma_next_wf(run: SoakModel, input: SoakInput)
    requires
        run.wf(),
        run.expects(input),
    ensures
        run.next(input).0.wf(),
{
}

/// The count of sent messages is the number of messages that the transport has taken.
pub proof fn law_sent_is_counted(run: SoakModel, inputs: Seq<SoakInput>)
    requires
        run.wf(),
        all_expected(run, inputs),
    ensures
        end(run, inputs).total_sent == run.total_sent + accepted(inputs),
    decreases inputs.len(),
{
    if inputs.len() > 0 {
        lemma_next_wf(run, inputs[0]);
        law_sent_is_counted(run.next(inputs[0]).0, inputs.drop_first());
    }
}

/// A message is sent only right after the transport has said that it takes one, and a long
/// one only if it has then said, too, that it does not hold long ones back. It is sent on
/// its stream's channel, with no flags.
pub proof fn law_send_when_possible(run: SoakModel, input: SoakInput)
    requires
        run.wf(),
        run.expects(input),
    ensures
        run.next(input).1 is Send ==> {
            ||| run.phase is AskingCanSend && input == SoakInput::Answer(true) && !is_fragmented(
                run.stream,
            )
            ||| run.phase is AskingThrottled && input == SoakInput::Answer(false)
        },
        run.next(input).0.phase is AskingThrottled ==> run.phase is AskingCanSend && input
            == SoakInput::Answer(true) && is_fragmented(run.stream),
        run.next(input).1 matches SoakAction::Send { stream, channel, flags, .. } ==> stream
            == run.stream && channel == channel_of(run.stream) && flags == 0,
{
}

/// Nothing is sent once the time is up: from the drain on, no input leads to a message.
pub proof fn law_drain_sends_nothing(run: SoakModel, inputs: Seq<SoakInput>, stream: int)
    requires
        run.wf(),
        is_draining(run.phase),
        all_expected(run, inputs),
    ensures
        numbers_sent(run, inputs, stream) == Seq::<u32>::empty(),
        is_draining(end(run, inputs).phase),
    decreases inputs.len(),
{
    if inputs.len() > 0 {
        lemma_next_wf(run, inputs[0]);
        law_drain_sends_nothing(run.next(inputs[0]).0, inputs.drop_first(), stream);
    }
}

/// Whether the time for sending is up.
pub open spec fn is_draining(phase: SoakPhase) -> bool {
    match phase {
        SoakPhase::DrainPolling
        | SoakPhase::DrainUpdating
        | SoakPhase::DrainSleeping
        | SoakPhase::AskingEchoes
        | SoakPhase::ReportingDrain
        | SoakPhase::Disconnecting
        | SoakPhase::Finished => true,
        _ => false,
    }
}

/// The client is set up in one order and connects; where that is refused the run aborts with
/// the error that was reported, and else it asks for its connection.
pub proof fn law_set_up(run: SoakModel, code: i32)
    requires
        run.phase is Idle,
    ensures
        ({
            let done = SoakInput::Done;
            let connected = SoakInput::Connected(code);
            let r1 = run.next(done).0;
            let r2 = r1.next(done).0;
            let r3 = r2.next(done).0;
            let r4 = r3.next(done).0;
            &&& run.expects(done) && run.next(done).1 is RegisterDefaultChannels
            &&& r1.expects(done) && r1.next(done).1 is EnableAutoRetransmit
            &&& r2.expects(done) && r2.next(done).1 is InstallCallbacks
            &&& r3.expects(done) && r3.next(done).1 is Connect
            &&& r4.expects(connected)
            &&& code >= 0 ==> r4.next(connected) == (
                SoakModel { phase: SoakPhase::AskingConnected, ..run },
                SoakAction::AskConnected,
            )
            &&& code < 0 ==> (r4.next(connected).1 matches SoakAction::Abort(e)
                && run.codes.number_of(e) == code)
            &&& code < 0 ==> forall|more: SoakInput| !r4.next(connected).0.expects(more)
        }),
{
    law_code_is_kept(run.codes, code);
}

/// While its connection does not stand, the client processes up to 256 packets, updates,
/// pauses for ten milliseconds and looks at the clock; it gives up after more than ten
/// seconds, and is back where it began before. Once the connection stands it begins to send.
pub proof fn law_wait(run: SoakModel, nanos: u128)
    requires
        run.phase is AskingConnected,
    ensures
        ({
            let no = SoakInput::Answer(false);
            let yes = SoakInput::Answer(true);
            let done = SoakInput::Done;
            let waited = SoakInput::Elapsed(nanos);
            let r1 = run.next(no).0;
            let r2 = r1.next(done).0;
            let r3 = r2.next(done).0;
            let r4 = r3.next(done).0;
            &&& run.expects(no) && run.next(no).1 == SoakAction::Poll(256)
            &&& r1.expects(done) && r1.next(done).1 is Update
            &&& r2.expects(done) && r2.next(done).1 == SoakAction::Sleep(10_000_000)
            &&& r3.expects(done) && r3.next(done).1 is AskWaited
            &&& r4.expects(waited)
            &&& nanos <= 10_000_000_000 ==> r4.next(waited) == (run, SoakAction::AskConnected)
            &&& nanos > 10_000_000_000 ==> r4.next(waited).1 is TimeOut
                && forall|more: SoakInput| !r4.next(waited).0.expects(more)
            &&& run.expects(yes) && run.next(yes) == (
                SoakModel { phase: SoakPhase::AskingSendTime, ..run },
                SoakAction::AskSendTime,
            )
        }),
{
}

/// The client sends for the whole of its time: as long as less than the duration has passed it
/// goes on to the next pass, and the drain begins exactly once the time is up, and from nowhere
/// else.
pub proof fn law_sending_lasts_its_time(run: SoakModel, input: SoakInput)
    requires
        run.wf(),
        run.expects(input),
    ensures
        run.phase is AskingSendTime ==> (input matches SoakInput::Elapsed(nanos) && {
            &&& nanos < run.duration_nanos <==> run.next(input).0.phase is Polling
            &&& nanos >= run.duration_nanos <==> is_draining(run.next(input).0.phase)
            &&& run.next(input).1 == SoakAction::Poll(4096)
        }),
        !is_draining(run.phase) && is_draining(run.next(input).0.phase) ==> {
            ||| run.phase is AskingSendTime && (input matches SoakInput::Elapsed(nanos) && nanos
                >= run.duration_nanos)
            ||| run.phase is AskingWaited && run.next(input).1 is TimeOut
        },
        run.next(input).0.duration_nanos == run.duration_nanos,
{
}

/// A pass begins with packets and an update; where the transport takes nothing the client
/// pauses for a tenth of a millisecond and asks for the time again, and where it does, the
/// first stream is asked for.
pub proof fn law_pass_begins(run: SoakModel)
    requires
        run.phase is Polling,
    ensures
        ({
            let no = SoakInput::Answer(false);
            let yes = SoakInput::Answer(true);
            let done = SoakInput::Done;
            let r1 = run.next(done).0;
            let r2 = r1.next(done).0;
            let paused = r2.next(no).0;
            &&& run.expects(done) && run.next(done).1 is Update
            &&& r1.expects(done) && r1.next(done).1 is AskCanSend
            &&& r2.expects(no) && r2.next(no).1 == SoakAction::Sleep(100_000)
            &&& paused.expects(done) && paused.next(done) == (
                SoakModel { phase: SoakPhase::AskingSendTime, ..run },
                SoakAction::AskSendTime,
            )
            &&& r2.expects(yes) && r2.next(yes) == (
                SoakModel { phase: SoakPhase::AskingCanSend, stream: 0, ..run },
                SoakAction::AskCanSend,
            )
        }),
{
}

/// Where a pass goes behind a stream: to the next of the six, or on to the report.
pub open spec fn goes_behind(run: SoakModel, next: (SoakModel, SoakAction)) -> bool {
    if run.stream < 5 {
        next.0.phase is AskingCanSend && next.0.stream == run.stream + 1 && next.1 is AskCanSend
    } else {
        next.0.phase is AskingReportTime && next.1 is AskReportTime
    }
}

/// Each of the six streams has its turn in a pass. Its next message is sent on its channel,
/// unless the transport takes nothing, which ends the pass, or holds back long messages, which
/// leaves a long one out. The message has the next number of its stream, which is used even
/// where the transport refuses it, and it counts as sent exactly where the transport took it.
pub proof fn law_turn_of_a_stream(run: SoakModel, code: i32)
    requires
        run.wf(),
        run.phase is AskingCanSend,
        run.counters[run.stream] < u32::MAX,
        run.total_sent < u64::MAX,
    ensures
        ({
            let no = SoakInput::Answer(false);
            let yes = SoakInput::Answer(true);
            let sent = SoakInput::Sent(code);
            let is_long = run.stream >= 3;
            let asked = run.next(yes);
            let offered = if is_long {
                asked.0.next(no)
            } else {
                asked
            };
            let behind = offered.0.next(sent);
            &&& run.expects(no) && run.next(no) == (
                SoakModel { phase: SoakPhase::AskingReportTime, ..run },
                SoakAction::AskReportTime,
            )
            &&& run.expects(yes)
            &&& is_long ==> {
                &&& asked.1 is AskThrottled && asked.0.expects(yes) && asked.0.expects(no)
                &&& goes_behind(run, asked.0.next(yes))
                &&& asked.0.next(yes).0.counters == run.counters
                &&& asked.0.next(yes).0.total_sent == run.total_sent
            }
            &&& offered.1 == (SoakAction::Send {
                stream: run.stream as usize,
                msg_id: (run.counters[run.stream] + 1) as u32,
                channel: (1 + run.stream % 3) as u8,
                flags: 0,
            })
            &&& offered.0.expects(sent)
            &&& goes_behind(run, behind)
            &&& behind.0.counters == run.counters.update(
                run.stream,
                (run.counters[run.stream] + 1) as u32,
            )
            &&& behind.0.total_sent == run.total_sent + if code >= 0 {
                1int
            } else {
                0
            }
            &&& behind.0.duration_nanos == run.duration_nanos && behind.0.rounds == run.rounds
            &&& behind.0.echoes_before == run.echoes_before && behind.0.codes == run.codes
        }),
{
}

/// Behind a pass a report is made if the last one is two seconds past, and the client asks for
/// the time again in either case.
pub proof fn law_pass_ends(run: SoakModel, nanos: u128)
    requires
        run.phase is AskingReportTime,
    ensures
        ({
            let past = SoakInput::Elapsed(nanos);
            let done = SoakInput::Done;
            let again = (
                SoakModel { phase: SoakPhase::AskingSendTime, ..run },
                SoakAction::AskSendTime,
            );
            &&& run.expects(past)
            &&& nanos < 2_000_000_000 ==> run.next(past) == again
            &&& nanos >= 2_000_000_000 ==> run.next(past).1 is Report && run.next(past).0.expects(
                done,
            ) && run.next(past).0.next(done) == again
        }),
{
}

/// A round of the drain processes up to 4096 packets, updates and pauses for five
/// milliseconds. After two hundred rounds the echoes are asked for, and before that the next
/// round begins.
pub proof fn law_drain_round(run: SoakModel)
    requires
        run.wf(),
        run.phase is DrainPolling,
    ensures
        ({
            let done = SoakInput::Done;
            let r1 = run.next(done).0;
            let r2 = r1.next(done).0;
            &&& run.expects(done) && run.next(done).1 is Update
            &&& r1.expects(done) && r1.next(done).1 == SoakAction::Sleep(5_000_000)
            &&& r2.expects(done)
            &&& run.rounds < 199 ==> r2.next(done) == (
                SoakModel { rounds: run.rounds + 1, ..run },
                SoakAction::Poll(4096),
            )
            &&& run.rounds >= 199 ==> r2.next(done) == (
                SoakModel { phase: SoakPhase::AskingEchoes, rounds: 0, ..run },
                SoakAction::AskEchoes,
            )
        }),
{
}

/// The drain goes on, with a report and another two hundred rounds, exactly where new echoes
/// have come and no more than fifteen seconds have passed. Else the client disconnects, and the
/// run ends.
pub proof fn law_drain_lasts_while_echoes_come(run: SoakModel, total: u64, nanos: u128)
    requires
        run.phase is AskingEchoes,
    ensures
        ({
            let echoes = SoakInput::Echoes { total, elapsed_nanos: nanos };
            let done = SoakInput::Done;
            let next = run.next(echoes);
            &&& run.expects(echoes)
            &&& next.0.expects(done)
            &&& total != run.echoes_before && nanos <= 15_000_000_000 ==> next.1
                == SoakAction::ReportDrain(total) && next.0.next(done) == (
                SoakModel { phase: SoakPhase::DrainPolling, echoes_before: total, ..run },
                SoakAction::Poll(4096),
            )
            &&& total == run.echoes_before || nanos > 15_000_000_000 ==> {
                &&& next.1 is Disconnect
                &&& next.0.next(done).1 is Exit
                &&& forall|more: SoakInput| !next.0.next(done).0.expects(more)
                &&& next.0.next(done).0.total_sent == run.total_sent
            }
        }),
{
}

} // verus!

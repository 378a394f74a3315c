//! The servers that run beside the clients of the soak test and of the performance
//! benchmark, and echo until they are told to stop.

use crate::bench::BENCH_POLL_BATCH;
use crate::error::{check_done, is_accepted, EntError, ErrorCodes};
#[allow(unused_imports)]
use crate::error::{first_match, law_code_is_kept};
use crate::packet::EntEndpoint;
use crate::soak_run::SOAK_POLL_BATCH;
use vstd::prelude::*;

verus! {

/// The number of worker threads of a server.
pub const ECHO_WORKERS: i32 = 4;

/// Pause between two rounds of the soak test's server, in nanoseconds: 500 us.
pub const ECHO_PAUSE_NANOS: u128 = 500_000;

/// How a server goes about its echoes.
#[derive(Debug, Clone, Copy, PartialEq, Eq, Structural)]
pub enum EchoMode {
    /// Messages are queued, and echoed before packets are processed; what is lost is sent
    /// again, and the server pauses between two rounds.
    Queued,
    /// Messages are echoed as they come, and the server lets other threads run between two
    /// rounds.
    Direct,
}

/// A message that waits for its echo.
#[derive(Debug)]
pub struct QueuedEcho {
    pub data: Vec<u8>,
    pub channel_id: u8,
    pub dest: EntEndpoint,
}

/// Where a server stands: what it was last told to do.
#[derive(Debug, Clone, Copy, PartialEq, Eq, Structural)]
pub enum EchoPhase {
    /// Nothing has been done yet.
    Idle,
    SettingWorkers,
    RegisteringChannels,
    EnablingRetransmit,
    InstallingCallbacks,
    Starting,
    /// It is being asked whether the server is still wanted.
    AskingRunning,
    /// A message is being taken from the queue, if one waits.
    Taking,
    Echoing,
    Polling,
    Updating,
    Pausing,
    Stopping,
    /// The server has ended.
    Finished,
    /// The server has ended because it did not start.
    Failed,
}

/// What became of what a server was told to do.
#[derive(Debug)]
pub enum EchoInput {
    /// It is done; what it returned, if anything, does not matter.
    Done,
    /// What starting the server returned.
    Started(i32),
    /// The answer to a question.
    Answer(bool),
    /// The message that waited in the queue, if one did.
    Taken(Option<QueuedEcho>),
    /// What sending returned.
    Sent(i32),
}

/// What a server is to do next.
#[derive(Debug)]
pub enum EchoAction {
    SetWorkerCount(i32),
    RegisterDefaultChannels,
    EnableAutoRetransmit,
    InstallCallbacks,
    Start,
    AskRunning,
    /// Take a message from the queue, if one waits.
    Take,
    SendTo { data: Vec<u8>, channel_id: u8, dest: EntEndpoint, flags: u8 },
    /// Process up to this many packets.
    Poll(i32),
    Update,
    /// Pause for this many nanoseconds.
    Sleep(u128),
    Yield,
    Stop,
    Exit,
    /// End because the server did not start.
    Abort(EntError),
}

/// The decisions of a server that echoes.
#[derive(Debug)]
pub struct EchoServer {
    pub mode: EchoMode,
    /// How many queued messages the transport has taken as echoes.
    pub echoed: u64,
    pub codes: ErrorCodes,
    pub phase: EchoPhase,
}

impl EchoServer {
    /// Whether `input` can be what became of what the server was told to do.
    pub open spec fn expects(self, input: EchoInput) -> bool {
        match self.phase {
            EchoPhase::Starting => input is Started,
            EchoPhase::AskingRunning => input is Answer,
            EchoPhase::Taking => input is Taken,
            EchoPhase::Echoing => input is Sent,
            EchoPhase::Finished | EchoPhase::Failed => false,
            _ => input is Done,
        }
    }

    /// The most packets that are processed in one round.
    pub open spec fn poll_batch(self) -> i32 {
        match self.mode {
            EchoMode::Queued => SOAK_POLL_BATCH,
            EchoMode::Direct => BENCH_POLL_BATCH,
        }
    }

    /// The phase after `input`, and what it stands for.
    pub open spec fn decision(self, input: EchoInput) -> (EchoPhase, EchoAction) {
        match self.phase {
            EchoPhase::Idle => (
                EchoPhase::SettingWorkers,
                EchoAction::SetWorkerCount(ECHO_WORKERS),
            ),
            EchoPhase::SettingWorkers => (
                EchoPhase::RegisteringChannels,
                EchoAction::RegisterDefaultChannels,
            ),
            EchoPhase::RegisteringChannels => if self.mode is Queued {
                (EchoPhase::EnablingRetransmit, EchoAction::EnableAutoRetransmit)
            } else {
                (EchoPhase::InstallingCallbacks, EchoAction::InstallCallbacks)
            },
            EchoPhase::EnablingRetransmit => (
                EchoPhase::InstallingCallbacks,
                EchoAction::InstallCallbacks,
            ),
            EchoPhase::InstallingCallbacks => (EchoPhase::Starting, EchoAction::Start),
            EchoPhase::Starting => if input->Started_0 >= 0 {
                (EchoPhase::AskingRunning, EchoAction::AskRunning)
            } else {
                (
                    EchoPhase::Failed,
                    EchoAction::Abort(first_match(self.codes.table(), input->Started_0)),
                )
            },
            EchoPhase::AskingRunning => if !input->Answer_0 {
                (EchoPhase::Stopping, EchoAction::Stop)
            } else if self.mode is Queued {
                (EchoPhase::Taking, EchoAction::Take)
            } else {
                (EchoPhase::Polling, EchoAction::Poll(self.poll_batch()))
            },
            EchoPhase::Taking => match input->Taken_0 {
                Some(echo) => (
                    EchoPhase::Echoing,
                    EchoAction::SendTo {
                        data: echo.data,
                        channel_id: echo.channel_id,
                        dest: echo.dest,
                        flags: 0,
                    },
                ),
                None => (EchoPhase::Polling, EchoAction::Poll(self.poll_batch())),
            },
            EchoPhase::Echoing => (EchoPhase::Taking, EchoAction::Take),
            EchoPhase::Polling => (EchoPhase::Updating, EchoAction::Update),
            EchoPhase::Updating => (
                EchoPhase::Pausing,
                match self.mode {
                    EchoMode::Queued => EchoAction::Sleep(ECHO_PAUSE_NANOS),
                    EchoMode::Direct => EchoAction::Yield,
                },
            ),
            EchoPhase::Pausing => (EchoPhase::AskingRunning, EchoAction::AskRunning),
            EchoPhase::Stopping => (EchoPhase::Finished, EchoAction::Exit),
            EchoPhase::Finished => (EchoPhase::Finished, EchoAction::Exit),
            EchoPhase::Failed => (EchoPhase::Failed, EchoAction::Exit),
        }
    }

    /// The server after `input`.
    pub open spec fn after(self, input: EchoInput) -> EchoServer {
        EchoServer {
            phase: self.decision(input).0,
            echoed: if self.phase is Echoing && input->Sent_0 >= 0 {
                self.echoed.wrapping_add(1)
            } else {
                self.echoed
            },
            ..self
        }
    }

    /// What follows `input`.
    pub open spec fn action(self, input: EchoInput) -> EchoAction {
        self.decision(input).1
    }

    /// The decisions of a server.
    pub fn new(mode: EchoMode, codes: ErrorCodes) -> (r: EchoServer)
        ensures
            r.mode == mode,
            r.echoed == 0,
            r.codes == codes,
            r.phase is Idle,
    {
        EchoServer { mode, echoed: 0, codes, phase: EchoPhase::Idle }
    }

    /// Goes on to process packets.
    fn poll(&mut self) -> (r: EchoAction)
        ensures
            *final(self) == (EchoServer { phase: EchoPhase::Polling, ..*old(self) }),
            r == EchoAction::Poll(old(self).poll_batch()),
    {
        self.phase = EchoPhase::Polling;
        match self.mode {
            EchoMode::Queued => EchoAction::Poll(SOAK_POLL_BATCH),
            EchoMode::Direct => EchoAction::Poll(BENCH_POLL_BATCH),
        }
    }

    /// Takes what became of the last action and decides the next one.
    pub fn step(&mut self, input: EchoInput) -> (r: EchoAction)
        requires
            old(self).expects(input),
        ensures
            *final(self) == old(self).after(input),
            r == old(self).action(input),
    {
        match (self.phase, input) {
            (EchoPhase::Idle, _) => {
                self.phase = EchoPhase::SettingWorkers;
                EchoAction::SetWorkerCount(ECHO_WORKERS)
            },
            (EchoPhase::SettingWorkers, _) => {
                self.phase = EchoPhase::RegisteringChannels;
                EchoAction::RegisterDefaultChannels
            },
            (EchoPhase::RegisteringChannels, _) => match self.mode {
                EchoMode::Queued => {
                    self.phase = EchoPhase::EnablingRetransmit;
                    EchoAction::EnableAutoRetransmit
                },
                EchoMode::Direct => {
                    self.phase = EchoPhase::InstallingCallbacks;
                    EchoAction::InstallCallbacks
                },
            },
            (EchoPhase::EnablingRetransmit, _) => {
                self.phase = EchoPhase::InstallingCallbacks;
                EchoAction::InstallCallbacks
            },
            (EchoPhase::InstallingCallbacks, _) => {
                self.phase = EchoPhase::Starting;
                EchoAction::Start
            },
            (EchoPhase::Starting, EchoInput::Started(code)) => {
                match check_done(code, &self.codes) {
                    Ok(_) => {
                        self.phase = EchoPhase::AskingRunning;
                        EchoAction::AskRunning
                    },
                    Err(e) => {
                        self.phase = EchoPhase::Failed;
                        EchoAction::Abort(e)
                    },
                }
            },
            (EchoPhase::AskingRunning, EchoInput::Answer(running)) => {
                if !running {
                    self.phase = EchoPhase::Stopping;
                    EchoAction::Stop
                } else {
                    match self.mode {
                        EchoMode::Queued => {
                            self.phase = EchoPhase::Taking;
                            EchoAction::Take
                        },
                        EchoMode::Direct => self.poll(),
                    }
                }
            },
            (EchoPhase::Taking, EchoInput::Taken(echo)) => match echo {
                Some(echo) => {
                    self.phase = EchoPhase::Echoing;
                    EchoAction::SendTo {
                        data: echo.data,
                        channel_id: echo.channel_id,
                        dest: echo.dest,
                        flags: 0,
                    }
                },
                None => self.poll(),
            },
            (EchoPhase::Echoing, EchoInput::Sent(code)) => {
                if is_accepted(code) {
                    self.echoed = self.echoed.wrapping_add(1);
                }
                self.phase = EchoPhase::Taking;
                EchoAction::Take
            },
            (EchoPhase::Polling, _) => {
                self.phase = EchoPhase::Updating;
                EchoAction::Update
            },
            (EchoPhase::Updating, _) => {
                self.phase = EchoPhase::Pausing;
                match self.mode {
                    EchoMode::Queued => EchoAction::Sleep(ECHO_PAUSE_NANOS),
                    EchoMode::Direct => EchoAction::Yield,
                }
            },
            (EchoPhase::Pausing, _) => {
                self.phase = EchoPhase::AskingRunning;
                EchoAction::AskRunning
            },
            (EchoPhase::Stopping, _) => {
                self.phase = EchoPhase::Finished;
                EchoAction::Exit
            },
            _ => EchoAction::Exit,
        }
    }
}

/// Whether each input is one that the server expects when it comes.
pub open spec fn all_expected(server: EchoServer, inputs: Seq<EchoInput>) -> bool
    decreases inputs.len(),
{
    inputs.len() > 0 ==> server.expects(inputs[0]) && all_expected(
        server.after(inputs[0]),
        inputs.drop_first(),
    )
}

/// The server after a run of inputs.
pub open spec fn end(server: EchoServer, inputs: Seq<EchoInput>) -> EchoServer
    decreases inputs.len(),
{
    if inputs.len() == 0 {
        server
    } else {
        end(server.after(inputs[0]), inputs.drop_first())
    }
}

/// The messages that were taken from the queue in a run of inputs, in order.
pub open spec fn taken(inputs: Seq<EchoInput>) -> Seq<QueuedEcho>
    decreases inputs.len(),
{
    if inputs.len() == 0 {
        Seq::empty()
    } else {
        match inputs[0] {
            EchoInput::Taken(Some(echo)) => seq![echo] + taken(inputs.drop_first()),
            _ => taken(inputs.drop_first()),
        }
    }
}

/// The messages that are sent in a run of inputs, in order.
pub open spec fn sent_back(server: EchoServer, inputs: Seq<EchoInput>) -> Seq<QueuedEcho>
    decreases inputs.len(),
{
    if inputs.len() == 0 {
        Seq::empty()
    } else {
        let rest = sent_back(server.after(inputs[0]), inputs.drop_first());
        match server.action(inputs[0]) {
            EchoAction::SendTo { data, channel_id, dest, .. } => seq![
                QueuedEcho { data, channel_id, dest },
            ] + rest,
            _ => rest,
        }
    }
}

/// How many messages the transport has taken in a run of inputs.
pub open spec fn accepted(inputs: Seq<EchoInput>) -> nat
    decreases inputs.len(),
{
    if inputs.len() == 0 {
        0
    } else {
        accepted(inputs.drop_first()) + match inputs[0] {
            EchoInput::Sent(code) if code >= 0 => 1nat,
            _ => 0,
        }
    }
}

/// Every message that is taken from the queue is sent back once, as it is, in the order of
/// the queue, and nothing else is.
pub proof fn law_queue_is_echoed_in_order(server: EchoServer, inputs: Seq<EchoInput>)
    requires
        all_expected(server, inputs),
    ensures
        sent_back(server, inputs) == taken(inputs),
    decreases inputs.len(),
{
    if inputs.len() > 0 {
        law_queue_is_echoed_in_order(server.after(inputs[0]), inputs.drop_first());
    }
}

/// The count of echoes is the number of messages that the transport has taken.
pub proof fn law_echoes_are_counted(server: EchoServer, inputs: Seq<EchoInput>)
    requires
        all_expected(server, inputs),
        server.echoed + accepted(inputs) <= u64::MAX,
    ensures
        end(server, inputs).echoed == server.echoed + accepted(inputs),
    decreases inputs.len(),
{
    if inputs.len() > 0 {
        law_echoes_are_counted(server.after(inputs[0]), inputs.drop_first());
    }
}

/// Packets are processed only when the server is wanted and, where messages are queued, none
/// of them waits; an echo has no flags.
pub proof fn law_rounds(server: EchoServer, input: EchoInput)
    requires
        server.expects(input),
    ensures
        server.action(input) is Poll ==> {
            &&& server.action(input) == EchoAction::Poll(server.poll_batch())
            &&& input == EchoInput::Taken(None) || (server.mode is Direct && input
                == EchoInput::Answer(true))
        },
        server.action(input) matches EchoAction::SendTo { flags, .. } ==> flags == 0,
        server.action(input) is Stop ==> input == EchoInput::Answer(false),
{
}

/// A server is set up in one order: four workers, the default channels, retransmission where
/// messages are queued, the callbacks, the start. Where it starts it asks whether it is wanted,
/// and where it does not it aborts with the error that was reported.
pub proof fn law_set_up(server: EchoServer, code: i32)
    requires
        server.phase is Idle,
    ensures
        ({
            let done = EchoInput::Done;
            let started = EchoInput::Started(code);
            let s1 = server.after(done);
            let s2 = s1.after(done);
            let s3 = if server.mode is Queued {
                s2.after(done)
            } else {
                s2
            };
            let s4 = s3.after(done);
            let s5 = s4.after(done);
            &&& server.expects(done) && server.action(done) == EchoAction::SetWorkerCount(4)
            &&& s1.expects(done) && s1.action(done) is RegisterDefaultChannels
            &&& server.mode is Queued ==> s2.expects(done)
                && s2.action(done) is EnableAutoRetransmit
            &&& s3.expects(done) && s3.action(done) is InstallCallbacks
            &&& s4.expects(done) && s4.action(done) is Start
            &&& s5.expects(started)
            &&& code >= 0 ==> s5.action(started) is AskRunning && s5.after(started) == (EchoServer {
                phase: EchoPhase::AskingRunning,
                ..server
            })
            &&& code < 0 ==> (s5.action(started) matches EchoAction::Abort(e)
                && server.codes.number_of(e) == code)
        }),
{
    law_code_is_kept(server.codes, code);
}

/// A round of a server that echoes directly processes up to 8192 packets, updates, lets other
/// threads run and is back where it began.
pub proof fn law_direct_round(server: EchoServer)
    requires
        server.phase is AskingRunning,
        server.mode is Direct,
    ensures
        ({
            let wanted = EchoInput::Answer(true);
            let done = EchoInput::Done;
            let s1 = server.after(wanted);
            let s2 = s1.after(done);
            let s3 = s2.after(done);
            &&& server.expects(wanted) && server.action(wanted) == EchoAction::Poll(8192)
            &&& s1.expects(done) && s1.action(done) is Update
            &&& s2.expects(done) && s2.action(done) is Yield
            &&& s3.expects(done) && s3.action(done) is AskRunning
            &&& s3.after(done) == server
        }),
{
}

/// A round of a server with a queue looks into the queue first; once that is empty, it
/// processes up to 4096 packets, updates, pauses for half a millisecond and is back where it
/// began.
pub proof fn law_queued_round(server: EchoServer)
    requires
        server.phase is AskingRunning,
        server.mode is Queued,
    ensures
        ({
            let wanted = EchoInput::Answer(true);
            let empty = EchoInput::Taken(None);
            let done = EchoInput::Done;
            let s1 = server.after(wanted);
            let s2 = s1.after(empty);
            let s3 = s2.after(done);
            let s4 = s3.after(done);
            &&& server.expects(wanted) && server.action(wanted) is Take
            &&& s1.phase is Taking
            &&& s1.expects(empty) && s1.action(empty) == EchoAction::Poll(4096)
            &&& s2.expects(done) && s2.action(done) is Update
            &&& s3.expects(done) && s3.action(done) == EchoAction::Sleep(500_000)
            &&& s4.expects(done) && s4.action(done) is AskRunning
            &&& s4.after(done) == server
        }),
{
}

/// A message that waits is sent back as it is, without flags; then the queue is looked into
/// again. The echo counts exactly where the transport took it.
pub proof fn law_waiting_message(server: EchoServer, echo: QueuedEcho, code: i32)
    requires
        server.phase is Taking,
    ensures
        ({
            let waits = EchoInput::Taken(Some(echo));
            let sent = EchoInput::Sent(code);
            let s1 = server.after(waits);
            &&& server.expects(waits) && server.action(waits) == (EchoAction::SendTo {
                data: echo.data,
                channel_id: echo.channel_id,
                dest: echo.dest,
                flags: 0,
            })
            &&& s1.expects(sent) && s1.action(sent) is Take
            &&& code >= 0 ==> s1.after(sent) == (EchoServer {
                echoed: server.echoed.wrapping_add(1),
                ..server
            })
            &&& code < 0 ==> s1.after(sent) == server
        }),
{
}

/// A server ends only when it is no longer wanted, and then stops, exits and does nothing more.
pub proof fn law_end(server: EchoServer)
    requires
        server.phase is AskingRunning,
    ensures
        ({
            let unwanted = EchoInput::Answer(false);
            let done = EchoInput::Done;
            let s1 = server.after(unwanted);
            &&& server.expects(unwanted) && server.action(unwanted) is Stop
            &&& s1.expects(done) && s1.action(done) is Exit
            &&& s1.after(done).echoed == server.echoed
            &&& forall|more: EchoInput| !s1.after(done).expects(more)
        }),
{
}

} // verus!

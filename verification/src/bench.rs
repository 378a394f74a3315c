//! The network benchmark: clients that send in bursts and a server that echoes.

use crate::error::{check_done, is_accepted, EntError, ErrorCodes};
#[allow(unused_imports)]
use crate::error::{first_match, law_code_is_kept};
use vstd::prelude::*;

verus! {

/// The channel on which the benchmark sends each message by itself.
pub const BENCH_CHANNEL: u8 = 1;

/// The channel on which the benchmark has small messages sent together.
pub const COALESCED_CHANNEL: u8 = 4;

/// The most packets that a client processes at once while it waits for its connection.
pub const WAIT_POLL_BATCH: i32 = 256;

/// The most packets that are processed at once in the benchmark.
pub const BENCH_POLL_BATCH: i32 = 8192;

/// Pause while a client waits for its connection, in nanoseconds: 5 ms.
pub const WAIT_NANOS: u128 = 5_000_000;

/// The longest time that a client waits for its connection, in nanoseconds: 5 s.
pub const CONNECT_LIMIT_NANOS: u128 = 5_000_000_000;

/// The byte of which the benchmark's messages consist.
pub const FILL_BYTE: u8 = 0xAB;

/// The channel that a client sends on.
pub open spec fn channel_for(coalesced: bool) -> u8 {
    if coalesced {
        COALESCED_CHANNEL
    } else {
        BENCH_CHANNEL
    }
}

/// The bytes of a message of `size` bytes.
pub open spec fn payload_of(size: nat) -> Seq<u8> {
    Seq::new(size, |i: int| FILL_BYTE)
}

/// The channel that a client sends on.
pub fn send_channel(coalesced: bool) -> (r: u8)
    ensures
        r == channel_for(coalesced),
{
    if coalesced {
        COALESCED_CHANNEL
    } else {
        BENCH_CHANNEL
    }
}

/// A message of `size` bytes.
pub fn bench_payload(size: usize) -> (r: Vec<u8>)
    ensures
        r@ == payload_of(size as nat),
{
    let r: Vec<u8> = vec![FILL_BYTE; size];
    assert(r@ =~= payload_of(size as nat));
    r
}

/// Where a client of the benchmark stands: what it was last told to do.
#[derive(Debug, Clone, Copy, PartialEq, Eq, Structural)]
pub enum BenchPhase {
    /// Nothing has been done yet.
    Idle,
    RegisteringChannels,
    InstallingCallbacks,
    Connecting,
    /// It is being asked whether the connection stands.
    AskingConnected,
    WaitPolling,
    WaitUpdating,
    WaitSleeping,
    /// It is being asked how long the client has waited.
    AskingElapsed,
    /// It is being asked whether the benchmark still runs.
    AskingRunning,
    Polling,
    Updating,
    /// It is being asked whether a burst can begin.
    AskingReady,
    /// It is being asked whether the next message of a burst can be sent.
    AskingCanSend,
    Sending,
    Yielding,
    Disconnecting,
    /// The client has ended, after its disconnect or because it waited too long.
    Finished,
    /// The client has ended because its connection was refused.
    Failed,
}

/// What became of what a client of the benchmark was told to do.
#[derive(Debug, Clone, Copy, PartialEq, Eq, Structural)]
pub enum BenchInput {
    /// It is done; what it returned, if anything, does not matter.
    Done,
    /// What connecting returned.
    Connected(i32),
    /// The answer to a question.
    Answer(bool),
    /// How long the client has waited, in nanoseconds.
    Elapsed(u128),
    /// What sending returned.
    Sent(i32),
}

/// What a client of the benchmark is to do next.
#[derive(Debug, Clone, Copy, PartialEq, Eq, Structural)]
pub enum BenchAction {
    RegisterDefaultChannels,
    InstallCallbacks,
    Connect,
    AskConnected,
    /// Process up to this many packets.
    Poll(i32),
    Update,
    /// Pause for this many nanoseconds.
    Sleep(u128),
    AskElapsed,
    AskRunning,
    AskCanSend,
    /// Send the client's payload on this channel with these flags.
    Send { channel: u8, flags: u8 },
    Yield,
    Disconnect,
    /// End because the connection did not come to stand in time.
    TimeOut,
    Exit,
    /// End because the connection was refused.
    Abort(EntError),
}

/// The decisions of a client of the benchmark.
#[derive(Debug)]
pub struct BenchClient {
    /// The most messages in one burst.
    pub burst: usize,
    /// How many messages the current burst may still have.
    pub left: usize,
    /// How many messages the transport has taken.
    pub sent: u64,
    /// The bytes of every message.
    pub payload: Vec<u8>,
    /// The channel that every message is sent on.
    pub channel: u8,
    pub codes: ErrorCodes,
    pub phase: BenchPhase,
}

impl BenchClient {
    /// Whether `input` can be what became of what the client was told to do.
    pub open spec fn expects(self, input: BenchInput) -> bool {
        match self.phase {
            BenchPhase::Connecting => input is Connected,
            BenchPhase::AskingConnected
            | BenchPhase::AskingRunning
            | BenchPhase::AskingReady
            | BenchPhase::AskingCanSend => input is Answer,
            BenchPhase::AskingElapsed => input is Elapsed,
            BenchPhase::Sending => input is Sent,
            BenchPhase::Finished | BenchPhase::Failed => false,
            _ => input is Done,
        }
    }

    /// A burst has no more messages left than its limit allows, and where a message is
    /// being sent, or may be, at least that one.
    pub open spec fn wf(self) -> bool {
        &&& self.left <= self.burst
        &&& (self.phase is AskingCanSend || self.phase is Sending ==> self.left > 0)
    }

    /// Whether the client's messages have this size and go to the channel for single or for
    /// coalesced messages.
    pub open spec fn sends_as(self, payload_size: nat, coalesced: bool) -> bool {
        &&& self.payload@ == payload_of(payload_size)
        &&& self.channel == channel_for(coalesced)
    }

    /// The phase after `input`, and what it stands for.
    pub open spec fn decision(self, input: BenchInput) -> (BenchPhase, BenchAction) {
        match self.phase {
            BenchPhase::Idle => (
                BenchPhase::RegisteringChannels,
                BenchAction::RegisterDefaultChannels,
            ),
            BenchPhase::RegisteringChannels => (
                BenchPhase::InstallingCallbacks,
                BenchAction::InstallCallbacks,
            ),
            BenchPhase::InstallingCallbacks => (BenchPhase::Connecting, BenchAction::Connect),
            BenchPhase::Connecting => if input->Connected_0 >= 0 {
                (BenchPhase::AskingConnected, BenchAction::AskConnected)
            } else {
                (
                    BenchPhase::Failed,
                    BenchAction::Abort(first_match(self.codes.table(), input->Connected_0)),
                )
            },
            BenchPhase::AskingConnected => if input->Answer_0 {
                (BenchPhase::AskingRunning, BenchAction::AskRunning)
            } else {
                (BenchPhase::WaitPolling, BenchAction::Poll(WAIT_POLL_BATCH))
            },
            BenchPhase::WaitPolling => (BenchPhase::WaitUpdating, BenchAction::Update),
            BenchPhase::WaitUpdating => (BenchPhase::WaitSleeping, BenchAction::Sleep(WAIT_NANOS)),
            BenchPhase::WaitSleeping => (BenchPhase::AskingElapsed, BenchAction::AskElapsed),
            BenchPhase::AskingElapsed => if input->Elapsed_0 > CONNECT_LIMIT_NANOS {
                (BenchPhase::Finished, BenchAction::TimeOut)
            } else {
                (BenchPhase::AskingConnected, BenchAction::AskConnected)
            },
            BenchPhase::AskingRunning => if input->Answer_0 {
                (BenchPhase::Polling, BenchAction::Poll(BENCH_POLL_BATCH))
            } else {
                (BenchPhase::Disconnecting, BenchAction::Disconnect)
            },
            BenchPhase::Polling => (BenchPhase::Updating, BenchAction::Update),
            BenchPhase::Updating => (BenchPhase::AskingReady, BenchAction::AskCanSend),
            BenchPhase::AskingReady => if input->Answer_0 && self.burst > 0 {
                (BenchPhase::AskingCanSend, BenchAction::AskCanSend)
            } else {
                (BenchPhase::Yielding, BenchAction::Yield)
            },
            BenchPhase::AskingCanSend => if input->Answer_0 {
                (BenchPhase::Sending, BenchAction::Send { channel: self.channel, flags: 0 })
            } else {
                (BenchPhase::Yielding, BenchAction::Yield)
            },
            BenchPhase::Sending => if self.left > 1 {
                (BenchPhase::AskingCanSend, BenchAction::AskCanSend)
            } else {
                (BenchPhase::Yielding, BenchAction::Yield)
            },
            BenchPhase::Yielding => (BenchPhase::AskingRunning, BenchAction::AskRunning),
            BenchPhase::Disconnecting => (BenchPhase::Finished, BenchAction::Exit),
            BenchPhase::Finished => (BenchPhase::Finished, BenchAction::Exit),
            BenchPhase::Failed => (BenchPhase::Failed, BenchAction::Exit),
        }
    }

    /// The client after `input`.
    pub open spec fn after(self, input: BenchInput) -> BenchClient {
        BenchClient {
            left: match self.phase {
                BenchPhase::AskingReady => self.burst,
                BenchPhase::Sending => (self.left - 1) as usize,
                _ => self.left,
            },
            sent: if self.phase is Sending && input->Sent_0 >= 0 {
                self.sent.wrapping_add(1)
            } else {
                self.sent
            },
            phase: self.decision(input).0,
            ..self
        }
    }

    /// What follows `input`.
    pub open spec fn action(self, input: BenchInput) -> BenchAction {
        self.decision(input).1
    }

    /// The decisions of a client with bursts of up to `burst` messages of `payload_size`
    /// bytes.
    pub fn new(burst: usize, payload_size: usize, coalesced: bool, codes: ErrorCodes) -> (r:
        BenchClient)
        ensures
            r.wf(),
            r.burst == burst,
            r.left == 0,
            r.sent == 0,
            r.sends_as(payload_size as nat, coalesced),
            r.codes == codes,
            r.phase is Idle,
    {
        BenchClient {
            burst,
            left: 0,
            sent: 0,
            payload: bench_payload(payload_size),
            channel: send_channel(coalesced),
            codes,
            phase: BenchPhase::Idle,
        }
    }

    /// Takes what became of the last action and decides the next one.
    pub fn step(&mut self, input: BenchInput) -> (r: BenchAction)
        requires
            old(self).wf(),
            old(self).expects(input),
        ensures
            final(self).wf(),
            *final(self) == old(self).after(input),
            r == old(self).action(input),
    {
        match (self.phase, input) {
            (BenchPhase::Idle, _) => {
                self.phase = BenchPhase::RegisteringChannels;
                BenchAction::RegisterDefaultChannels
            },
            (BenchPhase::RegisteringChannels, _) => {
                self.phase = BenchPhase::InstallingCallbacks;
                BenchAction::InstallCallbacks
            },
            (BenchPhase::InstallingCallbacks, _) => {
                self.phase = BenchPhase::Connecting;
                BenchAction::Connect
            },
            (BenchPhase::Connecting, BenchInput::Connected(code)) => {
                match check_done(code, &self.codes) {
                    Ok(_) => {
                        self.phase = BenchPhase::AskingConnected;
                        BenchAction::AskConnected
                    },
                    Err(e) => {
                        self.phase = BenchPhase::Failed;
                        BenchAction::Abort(e)
                    },
                }
            },
            (BenchPhase::AskingConnected, BenchInput::Answer(connected)) => {
                if connected {
                    self.phase = BenchPhase::AskingRunning;
                    BenchAction::AskRunning
                } else {
                    self.phase = BenchPhase::WaitPolling;
                    BenchAction::Poll(WAIT_POLL_BATCH)
                }
            },
            (BenchPhase::WaitPolling, _) => {
                self.phase = BenchPhase::WaitUpdating;
                BenchAction::Update
            },
            (BenchPhase::WaitUpdating, _) => {
                self.phase = BenchPhase::WaitSleeping;
                BenchAction::Sleep(WAIT_NANOS)
            },
            (BenchPhase::WaitSleeping, _) => {
                self.phase = BenchPhase::AskingElapsed;
                BenchAction::AskElapsed
            },
            (BenchPhase::AskingElapsed, BenchInput::Elapsed(nanos)) => {
                if nanos > CONNECT_LIMIT_NANOS {
                    self.phase = BenchPhase::Finished;
                    BenchAction::TimeOut
                } else {
                    self.phase = BenchPhase::AskingConnected;
                    BenchAction::AskConnected
                }
            },
            (BenchPhase::AskingRunning, BenchInput::Answer(running)) => {
                if running {
                    self.phase = BenchPhase::Polling;
                    BenchAction::Poll(BENCH_POLL_BATCH)
                } else {
                    self.phase = BenchPhase::Disconnecting;
                    BenchAction::Disconnect
                }
            },
            (BenchPhase::Polling, _) => {
                self.phase = BenchPhase::Updating;
                BenchAction::Update
            },
            (BenchPhase::Updating, _) => {
                self.phase = BenchPhase::AskingReady;
                BenchAction::AskCanSend
            },
            (BenchPhase::AskingReady, BenchInput::Answer(ready)) => {
                self.left = self.burst;
                if ready && self.burst > 0 {
                    self.phase = BenchPhase::AskingCanSend;
                    BenchAction::AskCanSend
                } else {
                    self.phase = BenchPhase::Yielding;
                    BenchAction::Yield
                }
            },
            (BenchPhase::AskingCanSend, BenchInput::Answer(can_send)) => {
                if can_send {
                    self.phase = BenchPhase::Sending;
                    BenchAction::Send { channel: self.channel, flags: 0 }
                } else {
                    self.phase = BenchPhase::Yielding;
                    BenchAction::Yield
                }
            },
            (BenchPhase::Sending, BenchInput::Sent(code)) => {
                if is_accepted(code) {
                    self.sent = self.sent.wrapping_add(1);
                }
                self.left = self.left - 1;
                if self.left > 0 {
                    self.phase = BenchPhase::AskingCanSend;
                    BenchAction::AskCanSend
                } else {
                    self.phase = BenchPhase::Yielding;
                    BenchAction::Yield
                }
            },
            (BenchPhase::Yielding, _) => {
                self.phase = BenchPhase::AskingRunning;
                BenchAction::AskRunning
            },
            (BenchPhase::Disconnecting, _) => {
                self.phase = BenchPhase::Finished;
                BenchAction::Exit
            },
            _ => BenchAction::Exit,
        }
    }
}

/// Whether each input is one that the client expects when it comes.
pub open spec fn all_expected(client: BenchClient, inputs: Seq<BenchInput>) -> bool
    decreases inputs.len(),
{
    inputs.len() > 0 ==> client.expects(inputs[0]) && all_expected(
        client.after(inputs[0]),
        inputs.drop_first(),
    )
}

/// What a run of inputs leads to, one action for each.
pub open spec fn actions(client: BenchClient, inputs: Seq<BenchInput>) -> Seq<BenchAction>
    decreases inputs.len(),
{
    if inputs.len() == 0 {
        Seq::empty()
    } else {
        seq![client.action(inputs[0])] + actions(client.after(inputs[0]), inputs.drop_first())
    }
}

/// The client after a run of inputs.
pub open spec fn end(client: BenchClient, inputs: Seq<BenchInput>) -> BenchClient
    decreases inputs.len(),
{
    if inputs.len() == 0 {
        client
    } else {
        end(client.after(inputs[0]), inputs.drop_first())
    }
}

/// How many messages the transport has taken in a run of inputs.
pub open spec fn accepted(inputs: Seq<BenchInput>) -> nat
    decreases inputs.len(),
{
    if inputs.len() == 0 {
        0
    } else {
        accepted(inputs.drop_first()) + match inputs[0] {
            BenchInput::Sent(code) if code >= 0 => 1nat,
            _ => 0,
        }
    }
}

/// How often a run of actions sends a message.
pub open spec fn sends(acts: Seq<BenchAction>) -> nat
    decreases acts.len(),
{
    if acts.len() == 0 {
        0
    } else {
        sends(acts.drop_first()) + if acts[0] is Send {
            1nat
        } else {
            0
        }
    }
}

/// The count of sent messages is the number of messages that the transport has taken.
pub proof fn law_sent_is_counted(client: BenchClient, inputs: Seq<BenchInput>)
    requires
        all_expected(client, inputs),
        client.sent + accepted(inputs) <= u64::MAX,
    ensures
        end(client, inputs).sent == client.sent + accepted(inputs),
    decreases inputs.len(),
{
    if inputs.len() > 0 {
        law_sent_is_counted(client.after(inputs[0]), inputs.drop_first());
    }
}

/// A run has as many actions as inputs, and each is the one that its client decides.
proof fn lemma_action_at(client: BenchClient, inputs: Seq<BenchInput>, i: int)
    requires
        all_expected(client, inputs),
        0 <= i < inputs.len(),
    ensures
        actions(client, inputs).len() == inputs.len(),
        end(client, inputs.take(i)).expects(inputs[i]),
        actions(client, inputs)[i] == end(client, inputs.take(i)).action(inputs[i]),
        end(client, inputs.take(i + 1)) == end(client, inputs.take(i)).after(inputs[i]),
        end(client, inputs.take(i)).payload == client.payload,
        end(client, inputs.take(i)).channel == client.channel,
    decreases inputs.len(),
{
    let rest = inputs.drop_first();
    let next = client.after(inputs[0]);
    lemma_actions_len(client, inputs);
    lemma_actions_len(next, rest);
    assert(inputs.take(i + 1).drop_first() =~= rest.take(i));
    assert(inputs.take(i + 1)[0] == inputs[0]);
    assert(end(client, inputs.take(i + 1)) == end(next, rest.take(i)));
    if i == 0 {
        assert(inputs.take(0) =~= Seq::<BenchInput>::empty());
        assert(rest.take(0) =~= Seq::<BenchInput>::empty());
        assert(end(client, inputs.take(0)) == client);
        assert(end(next, rest.take(0)) == next);
    } else {
        assert(inputs.take(i).drop_first() =~= rest.take(i - 1));
        assert(inputs.take(i)[0] == inputs[0]);
        assert(end(client, inputs.take(i)) == end(next, rest.take(i - 1)));
        lemma_action_at(next, rest, i - 1);
        assert(rest[i - 1] == inputs[i]);
        assert(actions(client, inputs)[i] == actions(next, rest)[i - 1]);
    }
}

/// A run has as many actions as inputs.
proof fn lemma_actions_len(client: BenchClient, inputs: Seq<BenchInput>)
    ensures
        actions(client, inputs).len() == inputs.len(),
    decreases inputs.len(),
{
    if inputs.len() > 0 {
        lemma_actions_len(client.after(inputs[0]), inputs.drop_first());
    }
}

/// A message is sent only right after the transport has said that it takes one.
pub proof fn law_send_when_possible(client: BenchClient, inputs: Seq<BenchInput>, i: int)
    requires
        client.phase is Idle,
        all_expected(client, inputs),
        0 <= i < inputs.len(),
        actions(client, inputs)[i] is Send,
    ensures
        i > 0,
        actions(client, inputs)[i - 1] is AskCanSend,
        inputs[i] == BenchInput::Answer(true),
{
    lemma_action_at(client, inputs, i);
    if i == 0 {
        assert(inputs.take(0) =~= Seq::<BenchInput>::empty());
    } else {
        lemma_action_at(client, inputs, i - 1);
    }
}

/// Every message of a run has the payload and the channel that the client was made with,
/// and no flags.
pub proof fn law_what_is_sent(
    client: BenchClient,
    inputs: Seq<BenchInput>,
    i: int,
    payload_size: nat,
    coalesced: bool,
)
    requires
        client.sends_as(payload_size, coalesced),
        all_expected(client, inputs),
        0 <= i < inputs.len(),
        actions(client, inputs)[i] is Send,
    ensures
        actions(client, inputs)[i] == (BenchAction::Send {
            channel: channel_for(coalesced),
            flags: 0,
        }),
        end(client, inputs.take(i + 1)).payload@ == payload_of(payload_size),
{
    lemma_action_at(client, inputs, i);
}

/// The most messages that can be sent before the client asks again whether the benchmark
/// still runs.
spec fn may_send(client: BenchClient) -> nat {
    match client.phase {
        BenchPhase::AskingCanSend => client.left as nat,
        BenchPhase::Sending => (client.left - 1) as nat,
        BenchPhase::Yielding | BenchPhase::Disconnecting | BenchPhase::Finished => 0,
        _ => client.burst as nat,
    }
}

/// Until the client asks again, it sends no more than it may.
proof fn lemma_burst(client: BenchClient, inputs: Seq<BenchInput>)
    requires
        client.wf(),
        all_expected(client, inputs),
        forall|i: int| 0 <= i < inputs.len() ==> !(#[trigger] actions(client, inputs)[i] is AskRunning),
    ensures
        sends(actions(client, inputs)) <= may_send(client),
    decreases inputs.len(),
{
    if inputs.len() > 0 {
        let next = client.after(inputs[0]);
        let rest = inputs.drop_first();
        let acts = actions(client, inputs);
        lemma_actions_len(client, inputs);
        lemma_actions_len(next, rest);
        assert(acts.drop_first() =~= actions(next, rest));
        assert forall|i: int| 0 <= i < rest.len() implies !(#[trigger] actions(next, rest)[i] is AskRunning) by {
            assert(acts[i + 1] == actions(next, rest)[i]);
        }
        assert(!(acts[0] is AskRunning));
        lemma_burst(next, rest);
    }
}

/// Between two questions whether the benchmark still runs, a client sends at most one
/// burst of messages.
pub proof fn law_burst_is_bounded(client: BenchClient, inputs: Seq<BenchInput>)
    requires
        client.wf(),
        client.phase is AskingRunning,
        all_expected(client, inputs),
        forall|i: int| 0 <= i < inputs.len() ==> !(#[trigger] actions(client, inputs)[i] is AskRunning),
    ensures
        sends(actions(client, inputs)) <= client.burst,
{
    lemma_burst(client, inputs);
}

/// The most messages that can be sent before packets are processed again.
spec fn may_send_unpolled(client: BenchClient) -> nat {
    match client.phase {
        BenchPhase::Polling | BenchPhase::Updating | BenchPhase::AskingReady => client.burst as nat,
        BenchPhase::AskingCanSend => client.left as nat,
        BenchPhase::Sending => (client.left - 1) as nat,
        _ => 0,
    }
}

/// Between two times that packets are processed, a client sends at most one burst of
/// messages.
pub proof fn law_burst_between_polls(client: BenchClient, inputs: Seq<BenchInput>)
    requires
        client.wf(),
        all_expected(client, inputs),
        forall|i: int| 0 <= i < inputs.len() ==> !(#[trigger] actions(client, inputs)[i] is Poll),
    ensures
        sends(actions(client, inputs)) <= client.burst,
{
    lemma_burst_between_polls(client, inputs);
}

/// Until packets are processed again, a client sends no more than it may.
proof fn lemma_burst_between_polls(client: BenchClient, inputs: Seq<BenchInput>)
    requires
        client.wf(),
        all_expected(client, inputs),
        forall|i: int| 0 <= i < inputs.len() ==> !(#[trigger] actions(client, inputs)[i] is Poll),
    ensures
        sends(actions(client, inputs)) <= may_send_unpolled(client),
    decreases inputs.len(),
{
    if inputs.len() > 0 {
        let next = client.after(inputs[0]);
        let rest = inputs.drop_first();
        let acts = actions(client, inputs);
        lemma_actions_len(client, inputs);
        lemma_actions_len(next, rest);
        assert(acts.drop_first() =~= actions(next, rest));
        assert forall|i: int| 0 <= i < rest.len() implies !(#[trigger] actions(next, rest)[i] is Poll) by {
            assert(acts[i + 1] == actions(next, rest)[i]);
        }
        assert(!(acts[0] is Poll));
        lemma_burst_between_polls(next, rest);
    }
}

/// Once the benchmark no longer runs, the client disconnects, exits and sends no more.
pub proof fn law_disconnect_is_final(client: BenchClient, inputs: Seq<BenchInput>, i: int)
    requires
        all_expected(client, inputs),
        0 <= i < inputs.len(),
        actions(client, inputs)[i] is Disconnect,
    ensures
        inputs[i] == BenchInput::Answer(false),
        inputs.len() <= i + 2,
        i + 1 < inputs.len() ==> actions(client, inputs)[i + 1] is Exit,
{
    lemma_action_at(client, inputs, i);
    if i + 1 < inputs.len() {
        lemma_action_at(client, inputs, i + 1);
    }
    if i + 2 < inputs.len() {
        lemma_action_at(client, inputs, i + 2);
    }
}

/// A client gives up only after it has waited longer than the limit, and then does
/// nothing more.
pub proof fn law_time_out(client: BenchClient, inputs: Seq<BenchInput>, i: int)
    requires
        all_expected(client, inputs),
        0 <= i < inputs.len(),
        actions(client, inputs)[i] is TimeOut,
    ensures
        inputs[i] matches BenchInput::Elapsed(nanos) && nanos > CONNECT_LIMIT_NANOS,
        inputs.len() == i + 1,
{
    lemma_action_at(client, inputs, i);
    if i + 1 < inputs.len() {
        lemma_action_at(client, inputs, i + 1);
    }
}

/// The totals that were last reported, of which each report gives the increase.
#[derive(Debug, Clone, Copy, PartialEq, Eq, Structural)]
pub struct RateMeter {
    pub last_sent: u64,
    pub last_echoed: u64,
}

impl RateMeter {
    /// Nothing has been reported.
    pub fn new() -> (r: RateMeter)
        ensures
            r.last_sent == 0,
            r.last_echoed == 0,
    {
        RateMeter { last_sent: 0, last_echoed: 0 }
    }

    /// The increase of both totals since the last report.
    pub fn report(&mut self, sent: u64, echoed: u64) -> (r: (u64, u64))
        requires
            old(self).last_sent <= sent,
            old(self).last_echoed <= echoed,
        ensures
            r.0 == sent - old(self).last_sent,
            r.1 == echoed - old(self).last_echoed,
            final(self).last_sent == sent,
            final(self).last_echoed == echoed,
    {
        let r: (u64, u64) = (sent - self.last_sent, echoed - self.last_echoed);
        self.last_sent = sent;
        self.last_echoed = echoed;
        r
    }
}

/// Where the benchmark's server stands: what it was last told to do.
#[derive(Debug, Clone, Copy, PartialEq, Eq, Structural)]
pub enum BenchServerPhase {
    /// Nothing has been done yet.
    Idle,
    SettingWorkers,
    SettingAsyncIo,
    SettingSockets,
    RegisteringChannels,
    EnablingRetransmit,
    InstallingCallbacks,
    Starting,
    Polling,
    Updating,
    /// The clock and the tally are being read.
    ReadingFigures,
    Reporting,
    Yielding,
    /// The server has ended because it did not start.
    Failed,
}

/// What became of what the benchmark's server was told to do.
#[derive(Debug, Clone, Copy, PartialEq, Eq, Structural)]
pub enum BenchServerInput {
    /// It is done; what it returned, if anything, does not matter.
    Done,
    /// What starting the server returned.
    Started(i32),
    /// How long the server has run, in milliseconds, and what it has counted.
    Figures { elapsed_millis: u128, received: u64, echoed: u64 },
}

/// What the benchmark's server is to do next.
#[derive(Debug, Clone, Copy, PartialEq, Eq, Structural)]
pub enum BenchServerAction {
    SetWorkerCount(i32),
    SetUseAsyncIo(bool),
    SetSocketCount(i32),
    RegisterDefaultChannels,
    EnableAutoRetransmit,
    InstallCallbacks,
    Start,
    /// Process up to this many packets.
    Poll(i32),
    Update,
    ReadFigures,
    /// Tell how many messages were received in all and since the last report, and how
    /// many were echoed.
    Report { received: u64, gained: u64, echoed: u64 },
    Yield,
    /// End because the server did not start.
    Abort(EntError),
}

/// The decisions of the benchmark's server.
#[derive(Debug)]
pub struct BenchServer {
    pub workers: i32,
    pub sockets: i32,
    /// The number of received messages that was last reported.
    pub last_received: u64,
    pub codes: ErrorCodes,
    pub phase: BenchServerPhase,
}

/// Whether a report is due: in the first two milliseconds of a second, if anything was
/// received since the last one.
pub open spec fn report_is_due(elapsed_millis: u128, received: u64, last_received: u64) -> bool {
    elapsed_millis % 1000 < 2 && received != last_received
}

impl BenchServer {
    /// Whether `input` can be what became of what the server was told to do. The number
    /// of received messages does not fall.
    pub open spec fn expects(self, input: BenchServerInput) -> bool {
        match self.phase {
            BenchServerPhase::Starting => input is Started,
            BenchServerPhase::ReadingFigures => input is Figures && input->received
                >= self.last_received,
            BenchServerPhase::Failed => false,
            _ => input is Done,
        }
    }

    /// The phase after `input`, and what it stands for.
    pub open spec fn decision(self, input: BenchServerInput) -> (
        BenchServerPhase,
        BenchServerAction,
    ) {
        match self.phase {
            BenchServerPhase::Idle => (
                BenchServerPhase::SettingWorkers,
                BenchServerAction::SetWorkerCount(self.workers),
            ),
            BenchServerPhase::SettingWorkers => (
                BenchServerPhase::SettingAsyncIo,
                BenchServerAction::SetUseAsyncIo(true),
            ),
            BenchServerPhase::SettingAsyncIo => (
                BenchServerPhase::SettingSockets,
                BenchServerAction::SetSocketCount(self.sockets),
            ),
            BenchServerPhase::SettingSockets => (
                BenchServerPhase::RegisteringChannels,
                BenchServerAction::RegisterDefaultChannels,
            ),
            BenchServerPhase::RegisteringChannels => (
                BenchServerPhase::EnablingRetransmit,
                BenchServerAction::EnableAutoRetransmit,
            ),
            BenchServerPhase::EnablingRetransmit => (
                BenchServerPhase::InstallingCallbacks,
                BenchServerAction::InstallCallbacks,
            ),
            BenchServerPhase::InstallingCallbacks => (
                BenchServerPhase::Starting,
                BenchServerAction::Start,
            ),
            BenchServerPhase::Starting => if input->Started_0 >= 0 {
                (BenchServerPhase::Polling, BenchServerAction::Poll(BENCH_POLL_BATCH))
            } else {
                (
                    BenchServerPhase::Failed,
                    BenchServerAction::Abort(first_match(self.codes.table(), input->Started_0)),
                )
            },
            BenchServerPhase::ReadingFigures => if report_is_due(
                input->elapsed_millis,
                input->received,
                self.last_received,
            ) {
                (
                    BenchServerPhase::Reporting,
                    BenchServerAction::Report {
                        received: input->received,
                        gained: (input->received - self.last_received) as u64,
                        echoed: input->echoed,
                    },
                )
            } else {
                (BenchServerPhase::Yielding, BenchServerAction::Yield)
            },
            BenchServerPhase::Polling => (
                BenchServerPhase::Updating,
                BenchServerAction::Update,
            ),
            BenchServerPhase::Updating => (
                BenchServerPhase::ReadingFigures,
                BenchServerAction::ReadFigures,
            ),
            BenchServerPhase::Reporting => (
                BenchServerPhase::Yielding,
                BenchServerAction::Yield,
            ),
            BenchServerPhase::Yielding => (
                BenchServerPhase::Polling,
                BenchServerAction::Poll(BENCH_POLL_BATCH),
            ),
            BenchServerPhase::Failed => (BenchServerPhase::Failed, BenchServerAction::Yield),
        }
    }

    /// The server after `input`.
    pub open spec fn after(self, input: BenchServerInput) -> BenchServer {
        BenchServer {
            phase: self.decision(input).0,
            last_received: match self.action(input) {
                BenchServerAction::Report { received, .. } => received,
                _ => self.last_received,
            },
            ..self
        }
    }

    /// What follows `input`.
    pub open spec fn action(self, input: BenchServerInput) -> BenchServerAction {
        self.decision(input).1
    }

    /// The decisions of a server with so many worker threads and sockets.
    pub fn new(workers: i32, sockets: i32, codes: ErrorCodes) -> (r: BenchServer)
        ensures
            r.workers == workers,
            r.sockets == sockets,
            r.last_received == 0,
            r.codes == codes,
            r.phase is Idle,
    {
        BenchServer { workers, sockets, last_received: 0, codes, phase: BenchServerPhase::Idle }
    }

    /// Takes what became of the last action and decides the next one.
    pub fn step(&mut self, input: BenchServerInput) -> (r: BenchServerAction)
        requires
            old(self).expects(input),
        ensures
            *final(self) == old(self).after(input),
            r == old(self).action(input),
    {
        match (self.phase, input) {
            (BenchServerPhase::Idle, _) => {
                self.phase = BenchServerPhase::SettingWorkers;
                BenchServerAction::SetWorkerCount(self.workers)
            },
            (BenchServerPhase::SettingWorkers, _) => {
                self.phase = BenchServerPhase::SettingAsyncIo;
                BenchServerAction::SetUseAsyncIo(true)
            },
            (BenchServerPhase::SettingAsyncIo, _) => {
                self.phase = BenchServerPhase::SettingSockets;
                BenchServerAction::SetSocketCount(self.sockets)
            },
            (BenchServerPhase::SettingSockets, _) => {
                self.phase = BenchServerPhase::RegisteringChannels;
                BenchServerAction::RegisterDefaultChannels
            },
            (BenchServerPhase::RegisteringChannels, _) => {
                self.phase = BenchServerPhase::EnablingRetransmit;
                BenchServerAction::EnableAutoRetransmit
            },
            (BenchServerPhase::EnablingRetransmit, _) => {
                self.phase = BenchServerPhase::InstallingCallbacks;
                BenchServerAction::InstallCallbacks
            },
            (BenchServerPhase::InstallingCallbacks, _) => {
                self.phase = BenchServerPhase::Starting;
                BenchServerAction::Start
            },
            (BenchServerPhase::Starting, BenchServerInput::Started(code)) => {
                match check_done(code, &self.codes) {
                    Ok(_) => {
                        self.phase = BenchServerPhase::Polling;
                        BenchServerAction::Poll(BENCH_POLL_BATCH)
                    },
                    Err(e) => {
                        self.phase = BenchServerPhase::Failed;
                        BenchServerAction::Abort(e)
                    },
                }
            },
            (
                BenchServerPhase::ReadingFigures,
                BenchServerInput::Figures { elapsed_millis, received, echoed },
            ) => {
                if elapsed_millis % 1000 < 2 && received != self.last_received {
                    let gained: u64 = received - self.last_received;
                    self.last_received = received;
                    self.phase = BenchServerPhase::Reporting;
                    BenchServerAction::Report { received, gained, echoed }
                } else {
                    self.phase = BenchServerPhase::Yielding;
                    BenchServerAction::Yield
                }
            },
            (BenchServerPhase::Polling, _) => {
                self.phase = BenchServerPhase::Updating;
                BenchServerAction::Update
            },
            (BenchServerPhase::Updating, _) => {
                self.phase = BenchServerPhase::ReadingFigures;
                BenchServerAction::ReadFigures
            },
            (BenchServerPhase::Reporting, _) => {
                self.phase = BenchServerPhase::Yielding;
                BenchServerAction::Yield
            },
            (BenchServerPhase::Yielding, _) => {
                self.phase = BenchServerPhase::Polling;
                BenchServerAction::Poll(BENCH_POLL_BATCH)
            },
            _ => BenchServerAction::Yield,
        }
    }
}

/// Whether each input is one that the server expects when it comes.
pub open spec fn all_server_expected(server: BenchServer, inputs: Seq<BenchServerInput>) -> bool
    decreases inputs.len(),
{
    inputs.len() > 0 ==> server.expects(inputs[0]) && all_server_expected(
        server.after(inputs[0]),
        inputs.drop_first(),
    )
}

/// The sum of what is reported as received since the last report, in a run of inputs.
pub open spec fn reported_gain(server: BenchServer, inputs: Seq<BenchServerInput>) -> nat
    decreases inputs.len(),
{
    if inputs.len() == 0 {
        0
    } else {
        reported_gain(server.after(inputs[0]), inputs.drop_first()) + match server.action(
            inputs[0],
        ) {
            BenchServerAction::Report { gained, .. } => gained as nat,
            _ => 0,
        }
    }
}

/// The server after a run of inputs.
pub open spec fn server_end(server: BenchServer, inputs: Seq<BenchServerInput>) -> BenchServer
    decreases inputs.len(),
{
    if inputs.len() == 0 {
        server
    } else {
        server_end(server.after(inputs[0]), inputs.drop_first())
    }
}

/// The reports add up: together they tell of every message that was received up to the
/// last of them, and of none twice.
pub proof fn law_reports_add_up(server: BenchServer, inputs: Seq<BenchServerInput>)
    requires
        all_server_expected(server, inputs),
    ensures
        server_end(server, inputs).last_received == server.last_received + reported_gain(
            server,
            inputs,
        ),
    decreases inputs.len(),
{
    if inputs.len() > 0 {
        law_reports_add_up(server.after(inputs[0]), inputs.drop_first());
    }
}

/// The benchmark's server is set up in one order, with asynchronous I/O and retransmission,
/// and then processes packets; where it does not start it aborts with the error that was
/// reported.
pub proof fn law_server_set_up(server: BenchServer, code: i32)
    requires
        server.phase is Idle,
    ensures
        ({
            let done = BenchServerInput::Done;
            let started = BenchServerInput::Started(code);
            let s1 = server.after(done);
            let s2 = s1.after(done);
            let s3 = s2.after(done);
            let s4 = s3.after(done);
            let s5 = s4.after(done);
            let s6 = s5.after(done);
            let s7 = s6.after(done);
            &&& server.expects(done) && server.action(done) == BenchServerAction::SetWorkerCount(
                server.workers,
            )
            &&& s1.expects(done) && s1.action(done) == BenchServerAction::SetUseAsyncIo(true)
            &&& s2.expects(done) && s2.action(done) == BenchServerAction::SetSocketCount(
                server.sockets,
            )
            &&& s3.expects(done) && s3.action(done) is RegisterDefaultChannels
            &&& s4.expects(done) && s4.action(done) is EnableAutoRetransmit
            &&& s5.expects(done) && s5.action(done) is InstallCallbacks
            &&& s6.expects(done) && s6.action(done) is Start
            &&& s7.expects(started)
            &&& code >= 0 ==> s7.action(started) == BenchServerAction::Poll(8192)
                && s7.after(started) == (BenchServer {
                phase: BenchServerPhase::Polling,
                ..server
            })
            &&& code < 0 ==> (s7.action(started) matches BenchServerAction::Abort(e)
                && server.codes.number_of(e) == code)
        }),
{
    law_code_is_kept(server.codes, code);
}

/// A round of the benchmark's server updates, reads the clock and the tally, tells them in the
/// first two milliseconds of a second if anything new was received, lets other threads run,
/// and goes on to process packets. It never ends.
pub proof fn law_server_round(server: BenchServer, millis: u128, received: u64, echoed: u64)
    requires
        server.phase is Polling,
        server.last_received <= received,
    ensures
        ({
            let done = BenchServerInput::Done;
            let read = BenchServerInput::Figures { elapsed_millis: millis, received, echoed };
            let due = millis % 1000 <= 1 && received > server.last_received;
            let s1 = server.after(done);
            let s2 = s1.after(done);
            let s3 = s2.after(read);
            let s4 = if due {
                s3.after(done)
            } else {
                s3
            };
            &&& server.expects(done) && server.action(done) is Update
            &&& s1.expects(done) && s1.action(done) is ReadFigures
            &&& s2.expects(read)
            &&& due ==> s2.action(read) == (BenchServerAction::Report {
                received,
                gained: (received - server.last_received) as u64,
                echoed,
            }) && s3.expects(done) && s3.action(done) is Yield
            &&& !due ==> s2.action(read) is Yield
            &&& s4.expects(done) && s4.action(done) == BenchServerAction::Poll(8192)
            &&& s4.after(done) == (BenchServer {
                last_received: if due {
                    received
                } else {
                    server.last_received
                },
                ..server
            })
        }),
{
}

/// A client registers the default channels, installs its callbacks and connects; where that is
/// refused it aborts with the error that was reported, and else asks for its connection.
pub proof fn law_client_set_up(client: BenchClient, code: i32)
    requires
        client.phase is Idle,
    ensures
        ({
            let done = BenchInput::Done;
            let connected = BenchInput::Connected(code);
            let c1 = client.after(done);
            let c2 = c1.after(done);
            let c3 = c2.after(done);
            &&& client.expects(done) && client.action(done) is RegisterDefaultChannels
            &&& c1.expects(done) && c1.action(done) is InstallCallbacks
            &&& c2.expects(done) && c2.action(done) is Connect
            &&& c3.expects(connected)
            &&& code >= 0 ==> c3.action(connected) is AskConnected && c3.after(connected) == (
            BenchClient { phase: BenchPhase::AskingConnected, ..client })
            &&& code < 0 ==> (c3.action(connected) matches BenchAction::Abort(e)
                && client.codes.number_of(e) == code)
        }),
{
    law_code_is_kept(client.codes, code);
}

/// A client whose connection does not stand yet processes up to 256 packets, updates, pauses
/// for five milliseconds and looks at the clock; it gives up after more than five seconds,
/// and is back where it began before. Once the connection stands it asks whether to run.
pub proof fn law_client_waits(client: BenchClient, nanos: u128)
    requires
        client.phase is AskingConnected,
    ensures
        ({
            let no = BenchInput::Answer(false);
            let yes = BenchInput::Answer(true);
            let done = BenchInput::Done;
            let waited = BenchInput::Elapsed(nanos);
            let c1 = client.after(no);
            let c2 = c1.after(done);
            let c3 = c2.after(done);
            let c4 = c3.after(done);
            &&& client.expects(no) && client.action(no) == BenchAction::Poll(256)
            &&& c1.expects(done) && c1.action(done) is Update
            &&& c2.expects(done) && c2.action(done) == BenchAction::Sleep(5_000_000)
            &&& c3.expects(done) && c3.action(done) is AskElapsed
            &&& c4.expects(waited)
            &&& nanos > 5_000_000_000 ==> c4.action(waited) is TimeOut
            &&& nanos <= 5_000_000_000 ==> c4.action(waited) is AskConnected && c4.after(waited)
                == client
            &&& client.expects(yes) && client.action(yes) is AskRunning && client.after(yes) == (
            BenchClient { phase: BenchPhase::AskingRunning, ..client })
        }),
{
}

/// A pass of a client that is still wanted processes up to 8192 packets, updates and asks
/// whether a burst can begin. Where it can, a whole burst may be sent, and where it cannot,
/// other threads run and the next pass begins.
pub proof fn law_client_pass(client: BenchClient)
    requires
        client.phase is AskingRunning,
    ensures
        ({
            let no = BenchInput::Answer(false);
            let yes = BenchInput::Answer(true);
            let done = BenchInput::Done;
            let c1 = client.after(yes);
            let c2 = c1.after(done);
            let c3 = c2.after(done);
            let idle = c3.after(no);
            &&& client.expects(yes) && client.action(yes) == BenchAction::Poll(8192)
            &&& c1.expects(done) && c1.action(done) is Update
            &&& c2.expects(done) && c2.action(done) is AskCanSend
            &&& c3.expects(yes) && c3.expects(no)
            &&& client.burst > 0 ==> c3.action(yes) is AskCanSend && c3.after(yes) == (BenchClient {
                phase: BenchPhase::AskingCanSend,
                left: client.burst,
                ..client
            })
            &&& client.burst == 0 ==> c3.action(yes) is Yield && c3.after(yes).phase is Yielding
            &&& c3.action(no) is Yield
            &&& idle.expects(done) && idle.action(done) is AskRunning && idle.after(done) == (
            BenchClient { left: client.burst, ..client })
        }),
{
}

/// The inputs of a burst in which every message can be sent, with what sending each returned.
pub open spec fn burst_inputs(codes: Seq<i32>) -> Seq<BenchInput>
    decreases codes.len(),
{
    if codes.len() == 0 {
        Seq::empty()
    } else {
        seq![BenchInput::Answer(true), BenchInput::Sent(codes[0])] + burst_inputs(
            codes.drop_first(),
        )
    }
}

/// While the transport takes messages, a burst is used to the full, whatever sending them
/// returns: as many messages are sent as may be left, and not until then do other threads run.
pub proof fn law_burst_is_used_up(client: BenchClient, codes: Seq<i32>)
    requires
        client.wf(),
        client.phase is AskingCanSend,
        codes.len() <= client.left,
    ensures
        all_expected(client, burst_inputs(codes)),
        sends(actions(client, burst_inputs(codes))) == codes.len(),
        codes.len() < client.left ==> end(client, burst_inputs(codes)).phase is AskingCanSend,
        codes.len() == client.left ==> end(client, burst_inputs(codes)).phase is Yielding,
    decreases codes.len(),
{
    let inputs = burst_inputs(codes);
    if codes.len() > 0 {
        let rest = codes.drop_first();
        let one = client.after(inputs[0]);
        let two = one.after(inputs[1]);
        let behind = inputs.drop_first();
        assert(behind.drop_first() =~= burst_inputs(rest));
        assert(behind[0] == inputs[1]);
        let acts = actions(client, inputs);
        let later = actions(one, behind);
        assert(acts.drop_first() =~= later);
        assert(later.drop_first() =~= actions(two, burst_inputs(rest)));
        if client.left > 1 {
            law_burst_is_used_up(two, rest);
        } else {
            assert(burst_inputs(rest) =~= Seq::<BenchInput>::empty());
            assert(actions(two, burst_inputs(rest)) =~= Seq::<BenchAction>::empty());
            assert(sends(Seq::<BenchAction>::empty()) == 0);
            assert(all_expected(two, burst_inputs(rest)));
            assert(end(two, burst_inputs(rest)) == two);
        }
        assert(one.expects(behind[0]));
        assert(all_expected(one, behind));
        assert(end(one, behind) == end(two, burst_inputs(rest)));
        assert(end(client, inputs) == end(one, behind));
        assert(later[0] is AskCanSend || later[0] is Yield);
        assert(sends(later) == sends(later.drop_first()));
        assert(acts[0] is Send);
    } else {
        assert(actions(client, inputs) =~= Seq::<BenchAction>::empty());
    }
}

/// One message of a burst: it is sent where the transport takes it, uses up one of what is
/// left, and counts exactly where sending it succeeded. A no ends the burst, and after a burst
/// the client asks again whether to run.
pub proof fn law_one_message(client: BenchClient, code: i32)
    requires
        client.wf(),
        client.phase is AskingCanSend,
    ensures
        ({
            let no = BenchInput::Answer(false);
            let yes = BenchInput::Answer(true);
            let sent = BenchInput::Sent(code);
            let done = BenchInput::Done;
            let c1 = client.after(yes);
            let c2 = c1.after(sent);
            &&& client.expects(yes) && client.action(yes) == (BenchAction::Send {
                channel: client.channel,
                flags: 0,
            })
            &&& c1.expects(sent)
            &&& c2.left == client.left - 1
            &&& c2.sent == if code >= 0 {
                client.sent.wrapping_add(1)
            } else {
                client.sent
            }
            &&& c2.payload == client.payload && c2.channel == client.channel && c2.burst
                == client.burst && c2.codes == client.codes
            &&& client.left > 1 ==> c1.action(sent) is AskCanSend && c2.phase is AskingCanSend
            &&& client.left == 1 ==> c1.action(sent) is Yield && c2.phase is Yielding
            &&& client.expects(no) && client.action(no) is Yield
            &&& client.after(no).expects(done) && client.after(no).action(done) is AskRunning
            &&& client.after(no).after(done) == (BenchClient {
                phase: BenchPhase::AskingRunning,
                ..client
            })
            &&& client.left == 1 ==> c2.expects(done) && c2.action(done) is AskRunning && c2.after(
                done,
            ).phase is AskingRunning
        }),
{
}

/// A client sends on channel 1, or on channel 4 where messages are coalesced, and its message
/// consists of as many bytes `0xAB` as were asked for.
pub proof fn law_channel_and_payload(size: nat)
    ensures
        channel_for(false) == 1,
        channel_for(true) == 4,
        payload_of(size).len() == size,
        forall|i: int| 0 <= i < size ==> #[trigger] payload_of(size)[i] == 0xAB,
{
}

} // verus!

//! The client's side of the bridge: its commands, its events and the decisions of the
//! thread that runs the transport.

use crate::channel::{
    new_client_command_channel, new_client_event_channel, take_client_command,
};
#[allow(unused_imports)]
use crate::channel::{
    client_attempts, client_command_channel, client_commands_taken, client_event_channel,
};
use crate::config::NANOS_PER_MILLI;
#[allow(unused_imports)]
use crate::config::SpawnConfig;
use crate::ctext::fits_c_string;
use crate::error::is_accepted;
use crate::packet::{EntPacketHeader, RawPacketHeader};
use tokio::sync::mpsc::{Receiver, Sender};
use vstd::prelude::*;
#[allow(unused_imports)]
use vstd::std_specs::convert::FromSpec;

verus! {

/// Capacity of a client's command and event channels.
pub const CLIENT_CHANNEL_BUFFER: usize = 1024;

/// The most packets that one tick of a client processes.
pub const CLIENT_POLL_BATCH: i32 = 256;

/// Pause between the ticks of a client, in nanoseconds: 33 ms.
pub const CLIENT_TICK_NANOS: u128 = 33 * NANOS_PER_MILLI;

/// What a user asks of a client's thread.
#[derive(Debug)]
pub enum ClientCommand {
    Send { data: Vec<u8>, channel_id: u8, flags: u8 },
    Disconnect,
    Stop,
}

/// What a client's thread tells its user.
#[derive(Debug)]
pub enum ClientEvent {
    Connected,
    Disconnected,
    DataReceived { header: EntPacketHeader, payload: Vec<u8> },
}

impl ClientEvent {
    /// The event for data from the server.
    pub fn on_data_received(header: &RawPacketHeader, payload: &[u8]) -> (r: ClientEvent)
        ensures
            r matches ClientEvent::DataReceived { header: h, payload: p } && h
                == EntPacketHeader::from_spec(header) && p@ == payload@,
    {
        ClientEvent::DataReceived {
            header: EntPacketHeader::from(header),
            payload: vstd::slice::slice_to_vec(payload),
        }
    }
}

/// Where the client's thread stands: the action that it was last told to perform.
#[derive(Debug, Clone, Copy, PartialEq, Eq, Structural)]
pub enum ClientPhase {
    /// Nothing has been performed yet.
    Idle,
    Creating,
    RegisteringChannels,
    InstallingCallbacks,
    Connecting,
    /// A command is being taken from the channel, if one waits.
    Receiving,
    /// A command is being carried out.
    Performing,
    Polling,
    Updating,
    Sleeping,
    Stopping,
    ReleasingCallbacks,
    /// The thread has ended, after a stop or because the connection was refused.
    Finished,
    /// The thread has ended with a failure.
    Failed,
}

/// Why a client's thread cannot run.
#[derive(Debug, Clone, Copy, PartialEq, Eq, Structural)]
pub enum ClientFailure {
    /// The server's address cannot be passed to the transport.
    InvalidAddress,
    /// The transport has made no client.
    NoClient,
}

/// What became of the action that the client's thread has performed.
#[derive(Debug)]
pub enum ClientInput {
    /// It is done; what it returned, if anything, does not matter.
    Done,
    /// Whether the transport has made a client.
    Created(bool),
    /// What connecting returned.
    Connected(i32),
    /// The command that waited in the channel, if one did.
    Received(Option<ClientCommand>),
}

/// What the client's thread is to do next.
#[derive(Debug)]
pub enum ClientAction {
    Create { server_address: String, server_port: u16 },
    RegisterDefaultChannels,
    /// Have connects, disconnects and data reported as events.
    InstallCallbacks,
    Connect,
    /// Take a command from the channel, if one waits.
    Receive,
    Send { data: Vec<u8>, channel_id: u8, flags: u8 },
    Disconnect,
    /// Process up to this many packets.
    Poll(i32),
    Update,
    /// Pause for this many nanoseconds.
    Sleep(u128),
    /// Disconnect for good.
    Stop,
    ReleaseCallbacks,
    Exit,
    Abort(ClientFailure),
}

/// The decisions of a client's thread.
#[derive(Debug)]
pub struct ClientBridge {
    pub server_address: String,
    pub server_port: u16,
    pub phase: ClientPhase,
}

impl ClientBridge {
    /// Whether `input` can be what became of the action that the phase stands for.
    pub open spec fn expects(self, input: ClientInput) -> bool {
        match self.phase {
            ClientPhase::Creating => input is Created,
            ClientPhase::Connecting => input is Connected,
            ClientPhase::Receiving => input is Received,
            ClientPhase::Finished | ClientPhase::Failed => false,
            _ => input is Done,
        }
    }

    /// The phase after `input`, and the action that it stands for.
    pub open spec fn decision(self, input: ClientInput) -> (ClientPhase, ClientAction) {
        match self.phase {
            ClientPhase::Idle => if self.server_address@.contains('\0') {
                (ClientPhase::Failed, ClientAction::Abort(ClientFailure::InvalidAddress))
            } else {
                (
                    ClientPhase::Creating,
                    ClientAction::Create {
                        server_address: self.server_address,
                        server_port: self.server_port,
                    },
                )
            },
            ClientPhase::Creating => if input->Created_0 {
                (ClientPhase::RegisteringChannels, ClientAction::RegisterDefaultChannels)
            } else {
                (ClientPhase::Failed, ClientAction::Abort(ClientFailure::NoClient))
            },
            ClientPhase::RegisteringChannels => (
                ClientPhase::InstallingCallbacks,
                ClientAction::InstallCallbacks,
            ),
            ClientPhase::InstallingCallbacks => (ClientPhase::Connecting, ClientAction::Connect),
            ClientPhase::Connecting => if input->Connected_0 >= 0 {
                (ClientPhase::Receiving, ClientAction::Receive)
            } else {
                (ClientPhase::ReleasingCallbacks, ClientAction::ReleaseCallbacks)
            },
            ClientPhase::Receiving => match input->Received_0 {
                Some(ClientCommand::Send { data, channel_id, flags }) => (
                    ClientPhase::Performing,
                    ClientAction::Send { data, channel_id, flags },
                ),
                Some(ClientCommand::Disconnect) => (
                    ClientPhase::Performing,
                    ClientAction::Disconnect,
                ),
                Some(ClientCommand::Stop) => (ClientPhase::Stopping, ClientAction::Stop),
                None => (ClientPhase::Polling, ClientAction::Poll(CLIENT_POLL_BATCH)),
            },
            ClientPhase::Performing => (ClientPhase::Receiving, ClientAction::Receive),
            ClientPhase::Polling => (ClientPhase::Updating, ClientAction::Update),
            ClientPhase::Updating => (
                ClientPhase::Sleeping,
                ClientAction::Sleep(CLIENT_TICK_NANOS),
            ),
            ClientPhase::Sleeping => (ClientPhase::Receiving, ClientAction::Receive),
            ClientPhase::Stopping => (
                ClientPhase::ReleasingCallbacks,
                ClientAction::ReleaseCallbacks,
            ),
            ClientPhase::ReleasingCallbacks => (ClientPhase::Finished, ClientAction::Exit),
            ClientPhase::Finished => (ClientPhase::Finished, ClientAction::Exit),
            ClientPhase::Failed => (ClientPhase::Failed, ClientAction::Exit),
        }
    }

    /// The bridge after `input`.
    pub open spec fn after(self, input: ClientInput) -> ClientBridge {
        ClientBridge { phase: self.decision(input).0, ..self }
    }

    /// The action that follows `input`.
    pub open spec fn action(self, input: ClientInput) -> ClientAction {
        self.decision(input).1
    }

    /// The decisions for a client of the server at `server_address` and `server_port`.
    pub fn new(server_address: &str, server_port: u16) -> (r: ClientBridge)
        ensures
            r.server_address@ == server_address@,
            r.server_port == server_port,
            r.phase is Idle,
    {
        ClientBridge {
            server_address: String::from_str(server_address),
            server_port,
            phase: ClientPhase::Idle,
        }
    }

    /// Takes what became of the last action and decides the next one.
    pub fn step(&mut self, input: ClientInput) -> (r: ClientAction)
        requires
            old(self).expects(input),
        ensures
            *final(self) == old(self).after(input),
            r == old(self).action(input),
    {
        match (self.phase, input) {
            (ClientPhase::Idle, _) => {
                if fits_c_string(self.server_address.as_str()) {
                    self.phase = ClientPhase::Creating;
                    ClientAction::Create {
                        server_address: self.server_address.clone(),
                        server_port: self.server_port,
                    }
                } else {
                    self.phase = ClientPhase::Failed;
                    ClientAction::Abort(ClientFailure::InvalidAddress)
                }
            },
            (ClientPhase::Creating, ClientInput::Created(made)) => {
                if made {
                    self.phase = ClientPhase::RegisteringChannels;
                    ClientAction::RegisterDefaultChannels
                } else {
                    self.phase = ClientPhase::Failed;
                    ClientAction::Abort(ClientFailure::NoClient)
                }
            },
            (ClientPhase::RegisteringChannels, _) => {
                self.phase = ClientPhase::InstallingCallbacks;
                ClientAction::InstallCallbacks
            },
            (ClientPhase::InstallingCallbacks, _) => {
                self.phase = ClientPhase::Connecting;
                ClientAction::Connect
            },
            (ClientPhase::Connecting, ClientInput::Connected(code)) => {
                if is_accepted(code) {
                    self.phase = ClientPhase::Receiving;
                    ClientAction::Receive
                } else {
                    self.phase = ClientPhase::ReleasingCallbacks;
                    ClientAction::ReleaseCallbacks
                }
            },
            (ClientPhase::Receiving, ClientInput::Received(command)) => match command {
                Some(ClientCommand::Send { data, channel_id, flags }) => {
                    self.phase = ClientPhase::Performing;
                    ClientAction::Send { data, channel_id, flags }
                },
                Some(ClientCommand::Disconnect) => {
                    self.phase = ClientPhase::Performing;
                    ClientAction::Disconnect
                },
                Some(ClientCommand::Stop) => {
                    self.phase = ClientPhase::Stopping;
                    ClientAction::Stop
                },
                None => {
                    self.phase = ClientPhase::Polling;
                    ClientAction::Poll(CLIENT_POLL_BATCH)
                },
            },
            (ClientPhase::Polling, _) => {
                self.phase = ClientPhase::Updating;
                ClientAction::Update
            },
            (ClientPhase::Updating, _) => {
                self.phase = ClientPhase::Sleeping;
                ClientAction::Sleep(CLIENT_TICK_NANOS)
            },
            (ClientPhase::Performing, _) | (ClientPhase::Sleeping, _) => {
                self.phase = ClientPhase::Receiving;
                ClientAction::Receive
            },
            (ClientPhase::Stopping, _) => {
                self.phase = ClientPhase::ReleasingCallbacks;
                ClientAction::ReleaseCallbacks
            },
            (ClientPhase::ReleasingCallbacks, _) => {
                self.phase = ClientPhase::Finished;
                ClientAction::Exit
            },
            _ => ClientAction::Exit,
        }
    }

    /// Takes a command from the channel, if one waits, and decides what to do: the channel
    /// is asked once, and the command that was taken is the one that is acted on.
    pub fn receive(&mut self, commands: &mut Receiver<ClientCommand>) -> (r: ClientAction)
        requires
            old(self).phase is Receiving,
        ensures
            exists|command: Option<ClientCommand>|
                {
                    &&& *final(self) == #[trigger] old(self).after(ClientInput::Received(command))
                    &&& r == old(self).action(ClientInput::Received(command))
                    &&& takes(*old(commands), command, *final(commands))
                },
            client_attempts(*final(commands)) == client_attempts(*old(commands)) + 1,
    {
        let command = take_client_command(commands);
        self.step(ClientInput::Received(command))
    }
}

/// Whether the receiving end `after` is what the end `before` has become when a command was
/// asked for through it once, and `command` was taken, or nothing was.
pub open spec fn takes(
    before: Receiver<ClientCommand>,
    command: Option<ClientCommand>,
    after: Receiver<ClientCommand>,
) -> bool {
    &&& client_commands_taken(after) == match command {
        Some(c) => client_commands_taken(before).push(c),
        None => client_commands_taken(before),
    }
    &&& client_attempts(after) == client_attempts(before) + 1
}

/// A user's ends of the channels to a client's thread.
pub struct EntClientHandle {
    pub tx: Sender<ClientCommand>,
    pub rx: Receiver<ClientEvent>,
}

/// All that a client's thread and its user need before the thread is started.
pub struct ClientSpawn {
    /// The user's ends.
    pub handle: EntClientHandle,
    /// The thread's end for commands.
    pub commands: Receiver<ClientCommand>,
    /// The thread's end for events.
    pub events: Sender<ClientEvent>,
    /// The thread's decisions.
    pub bridge: ClientBridge,
}

/// Prepares a client: the channels to its thread, and the thread's decisions.
pub fn spawn_client(server_address: &str, server_port: u16) -> (r: ClientSpawn)
    ensures
        client_command_channel(r.handle.tx, r.commands) == Some(CLIENT_CHANNEL_BUFFER as nat),
        client_commands_taken(r.commands) == Seq::<ClientCommand>::empty(),
        client_attempts(r.commands) == 0,
        client_event_channel(r.events, r.handle.rx) == Some(CLIENT_CHANNEL_BUFFER as nat),
        r.bridge.server_address@ == server_address@,
        r.bridge.server_port == server_port,
        r.bridge.phase is Idle,
{
    let (command_tx, command_rx) = new_client_command_channel(CLIENT_CHANNEL_BUFFER);
    let (event_tx, event_rx) = new_client_event_channel(CLIENT_CHANNEL_BUFFER);
    ClientSpawn {
        handle: EntClientHandle { tx: command_tx, rx: event_rx },
        commands: command_rx,
        events: event_tx,
        bridge: ClientBridge::new(server_address, server_port),
    }
}

/// Whether each input is one that the bridge expects when it comes.
pub open spec fn all_expected(bridge: ClientBridge, inputs: Seq<ClientInput>) -> bool
    decreases inputs.len(),
{
    inputs.len() > 0 ==> bridge.expects(inputs[0]) && all_expected(
        bridge.after(inputs[0]),
        inputs.drop_first(),
    )
}

/// The actions that a run of inputs leads to, one for each.
pub open spec fn actions(bridge: ClientBridge, inputs: Seq<ClientInput>) -> Seq<ClientAction>
    decreases inputs.len(),
{
    if inputs.len() == 0 {
        Seq::empty()
    } else {
        seq![bridge.action(inputs[0])] + actions(bridge.after(inputs[0]), inputs.drop_first())
    }
}

/// The bridge after a run of inputs.
pub open spec fn end(bridge: ClientBridge, inputs: Seq<ClientInput>) -> ClientBridge
    decreases inputs.len(),
{
    if inputs.len() == 0 {
        bridge
    } else {
        end(bridge.after(inputs[0]), inputs.drop_first())
    }
}

/// The commands that were received in a run of inputs, in order.
pub open spec fn received(inputs: Seq<ClientInput>) -> Seq<ClientCommand>
    decreases inputs.len(),
{
    if inputs.len() == 0 {
        Seq::empty()
    } else {
        match inputs[0] {
            ClientInput::Received(Some(command)) => seq![command] + received(inputs.drop_first()),
            _ => received(inputs.drop_first()),
        }
    }
}

/// The commands that a run of actions carries out, in order.
pub open spec fn carried_out(acts: Seq<ClientAction>) -> Seq<ClientCommand>
    decreases acts.len(),
{
    if acts.len() == 0 {
        Seq::empty()
    } else {
        let rest = carried_out(acts.drop_first());
        match acts[0] {
            ClientAction::Send { data, channel_id, flags } => seq![
                ClientCommand::Send { data, channel_id, flags },
            ] + rest,
            ClientAction::Disconnect => seq![ClientCommand::Disconnect] + rest,
            ClientAction::Stop => seq![ClientCommand::Stop] + rest,
            _ => rest,
        }
    }
}

/// Every command that is received is carried out, once, in the order of receipt, and
/// nothing else is.
pub proof fn law_commands_in_order(bridge: ClientBridge, inputs: Seq<ClientInput>)
    requires
        all_expected(bridge, inputs),
    ensures
        carried_out(actions(bridge, inputs)) == received(inputs),
    decreases inputs.len(),
{
    if inputs.len() > 0 {
        law_commands_in_order(bridge.after(inputs[0]), inputs.drop_first());
        assert(actions(bridge, inputs).drop_first() =~= actions(
            bridge.after(inputs[0]),
            inputs.drop_first(),
        ));
    }
}

/// Whether the inputs of a run that are receipts were taken from the channel, whose
/// receiving end is `ends[i]` before input `i`.
pub open spec fn from_channel(ends: Seq<Receiver<ClientCommand>>, inputs: Seq<ClientInput>) -> bool {
    &&& ends.len() == inputs.len() + 1
    &&& forall|i: int|
        0 <= i < inputs.len() ==> match #[trigger] inputs[i] {
            ClientInput::Received(command) => takes(ends[i], command, ends[i + 1]),
            _ => ends[i + 1] == ends[i],
        }
}

/// How many inputs of a run are receipts.
pub open spec fn receipts(inputs: Seq<ClientInput>) -> nat
    decreases inputs.len(),
{
    if inputs.len() == 0 {
        0
    } else {
        receipts(inputs.drop_first()) + if inputs[0] is Received {
            1nat
        } else {
            0
        }
    }
}

/// The commands that a run takes out of the channel are those that it carries out, in the
/// order in which they were taken: none is dropped, repeated or made up. The channel is
/// asked once for each receipt.
pub proof fn law_taken_commands_are_carried_out(
    bridge: ClientBridge,
    inputs: Seq<ClientInput>,
    ends: Seq<Receiver<ClientCommand>>,
)
    requires
        all_expected(bridge, inputs),
        from_channel(ends, inputs),
    ensures
        client_commands_taken(ends.last()) == client_commands_taken(ends[0]) + carried_out(
            actions(bridge, inputs),
        ),
        client_attempts(ends.last()) == client_attempts(ends[0]) + receipts(inputs),
    decreases inputs.len(),
{
    let taken = client_commands_taken(ends[0]);
    if inputs.len() > 0 {
        let next = bridge.after(inputs[0]);
        let rest = inputs.drop_first();
        let later = ends.drop_first();
        assert forall|i: int| 0 <= i < rest.len() implies match #[trigger] rest[i] {
            ClientInput::Received(command) => takes(later[i], command, later[i + 1]),
            _ => later[i + 1] == later[i],
        } by {
            assert(rest[i] == inputs[i + 1]);
        }
        law_taken_commands_are_carried_out(next, rest, later);
        law_commands_in_order(bridge, inputs);
        law_commands_in_order(next, rest);
        if let ClientInput::Received(Some(command)) = inputs[0] {
            assert(taken.push(command) + received(rest) =~= taken + (seq![command] + received(
                rest,
            )));
        }
    } else {
        assert(taken + carried_out(actions(bridge, inputs)) =~= taken);
    }
}

/// The action for an input in a run is the one that its bridge decides.
proof fn lemma_action_at(bridge: ClientBridge, inputs: Seq<ClientInput>, i: int)
    requires
        all_expected(bridge, inputs),
        0 <= i < inputs.len(),
    ensures
        actions(bridge, inputs).len() == inputs.len(),
        end(bridge, inputs.take(i)).expects(inputs[i]),
        actions(bridge, inputs)[i] == end(bridge, inputs.take(i)).action(inputs[i]),
        end(bridge, inputs.take(i + 1)) == end(bridge, inputs.take(i)).after(inputs[i]),
        end(bridge, inputs.take(i)) == (ClientBridge {
            phase: end(bridge, inputs.take(i)).phase,
            ..bridge
        }),
    decreases inputs.len(),
{
    let rest = inputs.drop_first();
    let next = bridge.after(inputs[0]);
    lemma_actions_len(bridge, inputs);
    lemma_actions_len(next, rest);
    assert(inputs.take(i + 1).drop_first() =~= rest.take(i));
    assert(inputs.take(i + 1)[0] == inputs[0]);
    assert(end(bridge, inputs.take(i + 1)) == end(next, rest.take(i)));
    if i == 0 {
        assert(inputs.take(0) =~= Seq::<ClientInput>::empty());
        assert(rest.take(0) =~= Seq::<ClientInput>::empty());
        assert(end(bridge, inputs.take(0)) == bridge);
        assert(end(next, rest.take(0)) == next);
    } else {
        assert(inputs.take(i).drop_first() =~= rest.take(i - 1));
        assert(inputs.take(i)[0] == inputs[0]);
        assert(end(bridge, inputs.take(i)) == end(next, rest.take(i - 1)));
        lemma_action_at(next, rest, i - 1);
        assert(rest[i - 1] == inputs[i]);
        assert(actions(bridge, inputs)[i] == actions(next, rest)[i - 1]);
    }
}

/// A run has as many actions as inputs.
proof fn lemma_actions_len(bridge: ClientBridge, inputs: Seq<ClientInput>)
    ensures
        actions(bridge, inputs).len() == inputs.len(),
    decreases inputs.len(),
{
    if inputs.len() > 0 {
        lemma_actions_len(bridge.after(inputs[0]), inputs.drop_first());
    }
}

/// After a stop the callbacks are released, the thread exits, and no further input is
/// expected: no command is carried out and no packet is processed any more.
pub proof fn law_stop_is_final(bridge: ClientBridge, inputs: Seq<ClientInput>, i: int)
    requires
        all_expected(bridge, inputs),
        0 <= i < inputs.len(),
        actions(bridge, inputs)[i] is Stop,
    ensures
        inputs.len() <= i + 3,
        i + 1 < inputs.len() ==> actions(bridge, inputs)[i + 1] is ReleaseCallbacks,
        i + 2 < inputs.len() ==> actions(bridge, inputs)[i + 2] is Exit,
{
    lemma_action_at(bridge, inputs, i);
    if i + 1 < inputs.len() {
        lemma_action_at(bridge, inputs, i + 1);
    }
    if i + 2 < inputs.len() {
        lemma_action_at(bridge, inputs, i + 2);
    }
    if i + 3 < inputs.len() {
        lemma_action_at(bridge, inputs, i + 3);
    }
}

/// Packets are processed only when no command waits, and then a full batch at most.
pub proof fn law_poll_when_drained(bridge: ClientBridge, inputs: Seq<ClientInput>, i: int)
    requires
        all_expected(bridge, inputs),
        0 <= i < inputs.len(),
        actions(bridge, inputs)[i] is Poll,
    ensures
        inputs[i] == ClientInput::Received(None),
        actions(bridge, inputs)[i] == ClientAction::Poll(CLIENT_POLL_BATCH),
{
    lemma_action_at(bridge, inputs, i);
}

/// A tick without commands processes packets, updates, pauses and is back where it began.
pub proof fn law_tick(bridge: ClientBridge)
    requires
        bridge.phase is Receiving,
    ensures
        ({
            let inputs = seq![
                ClientInput::Received(None),
                ClientInput::Done,
                ClientInput::Done,
                ClientInput::Done,
            ];
            &&& all_expected(bridge, inputs)
            &&& actions(bridge, inputs) == seq![
                ClientAction::Poll(CLIENT_POLL_BATCH),
                ClientAction::Update,
                ClientAction::Sleep(CLIENT_TICK_NANOS),
                ClientAction::Receive,
            ]
            &&& end(bridge, inputs) == bridge
        }),
{
    let none = ClientInput::Received(None);
    let done = ClientInput::Done;
    let inputs = seq![none, done, done, done];
    assert(inputs.drop_first() =~= seq![done, done, done]);
    assert(seq![done, done, done].drop_first() =~= seq![done, done]);
    assert(seq![done, done].drop_first() =~= seq![done]);
    assert(seq![done].drop_first() =~= Seq::<ClientInput>::empty());
    reveal_with_fuel(all_expected, 5);
    reveal_with_fuel(actions, 5);
    reveal_with_fuel(end, 5);
}

/// A client that is made and connects is set up in one order before the first command
/// is taken.
pub proof fn law_startup(bridge: ClientBridge, code: i32)
    requires
        bridge.phase is Idle,
        !bridge.server_address@.contains('\0'),
        code >= 0,
    ensures
        ({
            let inputs = seq![
                ClientInput::Done,
                ClientInput::Created(true),
                ClientInput::Done,
                ClientInput::Done,
                ClientInput::Connected(code),
            ];
            &&& all_expected(bridge, inputs)
            &&& actions(bridge, inputs) == seq![
                ClientAction::Create {
                    server_address: bridge.server_address,
                    server_port: bridge.server_port,
                },
                ClientAction::RegisterDefaultChannels,
                ClientAction::InstallCallbacks,
                ClientAction::Connect,
                ClientAction::Receive,
            ]
        }),
{
    let done = ClientInput::Done;
    let made = ClientInput::Created(true);
    let connected = ClientInput::Connected(code);
    let inputs = seq![done, made, done, done, connected];
    assert(inputs.drop_first() =~= seq![made, done, done, connected]);
    assert(seq![made, done, done, connected].drop_first() =~= seq![done, done, connected]);
    assert(seq![done, done, connected].drop_first() =~= seq![done, connected]);
    assert(seq![done, connected].drop_first() =~= seq![connected]);
    assert(seq![connected].drop_first() =~= Seq::<ClientInput>::empty());
    reveal_with_fuel(all_expected, 6);
    reveal_with_fuel(actions, 6);
}

/// A client whose connection is refused releases its callbacks and exits; it carries
/// out no command.
pub proof fn law_refusal_ends_client(bridge: ClientBridge, inputs: Seq<ClientInput>, i: int)
    requires
        bridge.phase is Idle,
        all_expected(bridge, inputs),
        0 <= i < inputs.len(),
        inputs[i] matches ClientInput::Connected(code) && code < 0,
    ensures
        inputs.len() <= i + 2,
        actions(bridge, inputs)[i] is ReleaseCallbacks,
        i + 1 < inputs.len() ==> actions(bridge, inputs)[i + 1] is Exit,
        carried_out(actions(bridge, inputs)) == Seq::<ClientCommand>::empty(),
{
    lemma_action_at(bridge, inputs, i);
    if i + 1 < inputs.len() {
        lemma_action_at(bridge, inputs, i + 1);
    }
    if i + 2 < inputs.len() {
        lemma_action_at(bridge, inputs, i + 2);
    }
    lemma_before_receiving(bridge, inputs, i);
    law_commands_in_order(bridge, inputs);
    lemma_received_none(inputs);
}

/// A client that fails carries out no command.
pub proof fn law_failure_carries_out_nothing(
    bridge: ClientBridge,
    inputs: Seq<ClientInput>,
    i: int,
)
    requires
        bridge.phase is Idle,
        all_expected(bridge, inputs),
        0 <= i < inputs.len(),
        actions(bridge, inputs)[i] is Abort,
    ensures
        inputs.len() == i + 1,
        carried_out(actions(bridge, inputs)) == Seq::<ClientCommand>::empty(),
{
    lemma_action_at(bridge, inputs, i);
    if i + 1 < inputs.len() {
        lemma_action_at(bridge, inputs, i + 1);
    }
    lemma_before_receiving(bridge, inputs, i);
    assert(inputs.take(i + 1) =~= inputs);
    law_commands_in_order(bridge, inputs);
    lemma_received_none(inputs);
}

/// Whether the client has not come as far as taking commands.
spec fn is_setting_up(phase: ClientPhase) -> bool {
    match phase {
        ClientPhase::Idle
        | ClientPhase::Creating
        | ClientPhase::RegisteringChannels
        | ClientPhase::InstallingCallbacks
        | ClientPhase::Connecting => true,
        _ => false,
    }
}

/// Before a client that is being set up takes commands, none is received.
proof fn lemma_before_receiving(bridge: ClientBridge, inputs: Seq<ClientInput>, i: int)
    requires
        all_expected(bridge, inputs),
        0 <= i < inputs.len(),
        is_setting_up(end(bridge, inputs.take(i)).phase),
    ensures
        forall|j: int| 0 <= j <= i ==> !(#[trigger] inputs[j] is Received),
    decreases i,
{
    lemma_action_at(bridge, inputs, i);
    if i > 0 {
        lemma_action_at(bridge, inputs, i - 1);
        lemma_before_receiving(bridge, inputs, i - 1);
    }
}

/// Where no input is a receipt, no command is received.
proof fn lemma_received_none(inputs: Seq<ClientInput>)
    requires
        forall|j: int| 0 <= j < inputs.len() ==> !(#[trigger] inputs[j] is Received),
    ensures
        received(inputs) == Seq::<ClientCommand>::empty(),
    decreases inputs.len(),
{
    if inputs.len() > 0 {
        let rest = inputs.drop_first();
        assert forall|j: int| 0 <= j < rest.len() implies !(#[trigger] rest[j] is Received) by {
            assert(rest[j] == inputs[j + 1]);
        }
        lemma_received_none(rest);
        assert(!(inputs[0] is Received));
    }
}

/// What each action of a run is followed by, whatever the settings: the set-up goes on step
/// by step, every command that is taken is acted on at once, a command that has been carried
/// out is followed by the next look into the channel, and so is a pause. After the end
/// nothing follows.
pub proof fn law_what_follows(bridge: ClientBridge, inputs: Seq<ClientInput>, i: int)
    requires
        all_expected(bridge, inputs),
        0 <= i,
        i + 1 < inputs.len(),
    ensures
        ({
            let now = actions(bridge, inputs)[i];
            let next = actions(bridge, inputs)[i + 1];
            let input = inputs[i + 1];
            &&& !(now is Exit) && !(now is Abort)
            &&& now is Create ==> input == ClientInput::Created(true)
                && next is RegisterDefaultChannels || input == ClientInput::Created(false) && next
                == ClientAction::Abort(ClientFailure::NoClient)
            &&& now is RegisterDefaultChannels ==> next is InstallCallbacks
            &&& now is InstallCallbacks ==> next is Connect
            &&& now is Connect ==> {
                &&& input matches ClientInput::Connected(code)
                &&& code >= 0 ==> next is Receive
                &&& code < 0 ==> next is ReleaseCallbacks
            }
            &&& now is Receive ==> match input {
                ClientInput::Received(Some(ClientCommand::Send { data, channel_id, flags })) => next
                    == ClientAction::Send { data, channel_id, flags },
                ClientInput::Received(Some(ClientCommand::Disconnect)) => next is Disconnect,
                ClientInput::Received(Some(ClientCommand::Stop)) => next is Stop,
                ClientInput::Received(None) => next == ClientAction::Poll(256),
                _ => false,
            }
            &&& now is Send ==> next is Receive
            &&& now is Disconnect ==> next is Receive
            &&& now is Poll ==> next is Update
            &&& now is Update ==> next == ClientAction::Sleep(33_000_000)
            &&& now is Sleep ==> next is Receive
            &&& now is Stop ==> next is ReleaseCallbacks
            &&& now is ReleaseCallbacks ==> next is Exit
        }),
{
    lemma_action_at(bridge, inputs, i);
    lemma_action_at(bridge, inputs, i + 1);
}

/// Whether a client's thread has not been told to end.
pub open spec fn is_alive(phase: ClientPhase) -> bool {
    match phase {
        ClientPhase::Stopping
        | ClientPhase::ReleasingCallbacks
        | ClientPhase::Finished
        | ClientPhase::Failed => false,
        _ => true,
    }
}

/// A client's thread exits only after a stop was taken from the channel or the connection
/// was refused, and it aborts only because no client was made or because of its address.
pub proof fn law_ends_only_on_stop(bridge: ClientBridge, inputs: Seq<ClientInput>, i: int)
    requires
        is_alive(bridge.phase),
        all_expected(bridge, inputs),
        0 <= i < inputs.len(),
    ensures
        end(bridge, inputs.take(i + 1)).phase is Finished ==> actions(bridge, inputs)[i] is Exit,
        actions(bridge, inputs)[i] is Exit ==> {
            ||| i >= 2 && inputs[i - 2] == ClientInput::Received(Some(ClientCommand::Stop))
                && actions(bridge, inputs)[i - 2] is Stop
            ||| i >= 1 && (inputs[i - 1] matches ClientInput::Connected(code) && code < 0)
        },
        actions(bridge, inputs)[i] is Abort ==> {
            ||| inputs[i] == ClientInput::Created(false)
            ||| i == 0 && bridge.phase is Idle && bridge.server_address@.contains('\0')
        },
{
    lemma_action_at(bridge, inputs, i);
    assert(inputs.take(0) =~= Seq::<ClientInput>::empty());
    if i >= 1 {
        lemma_action_at(bridge, inputs, i - 1);
    }
    if i >= 2 {
        lemma_action_at(bridge, inputs, i - 2);
    }
}

/// A client's thread begins by making the client, where its address can be passed on, and
/// aborts where it cannot.
pub proof fn law_first_action(bridge: ClientBridge)
    requires
        bridge.phase is Idle,
    ensures
        bridge.expects(ClientInput::Done),
        bridge.server_address@.contains('\0') ==> bridge.action(ClientInput::Done)
            == ClientAction::Abort(ClientFailure::InvalidAddress),
        !bridge.server_address@.contains('\0') ==> bridge.action(ClientInput::Done)
            == (ClientAction::Create {
                server_address: bridge.server_address,
                server_port: bridge.server_port,
            }),
{
}

/// A run never gets stuck: after each action but the last, whatever can come of that action
/// is expected, and the settings are those that the run began with.
pub proof fn law_runs_go_on(bridge: ClientBridge, inputs: Seq<ClientInput>)
    requires
        all_expected(bridge, inputs),
        inputs.len() > 0,
    ensures
        ({
            let last = actions(bridge, inputs)[inputs.len() - 1];
            let now = end(bridge, inputs);
            &&& match last {
                ClientAction::Create { .. } => forall|made: bool|
                    now.expects(ClientInput::Created(made)),
                ClientAction::Connect => forall|code: i32|
                    now.expects(ClientInput::Connected(code)),
                ClientAction::Receive => forall|command: Option<ClientCommand>|
                    now.expects(ClientInput::Received(command)),
                ClientAction::Exit | ClientAction::Abort(_) => true,
                _ => now.expects(ClientInput::Done),
            }
            &&& now.server_address == bridge.server_address
            &&& now.server_port == bridge.server_port
        }),
{
    let n = inputs.len() - 1;
    lemma_action_at(bridge, inputs, n);
    assert(inputs.take(n + 1) =~= inputs);
}

/// A client's channels hold as many messages as those of a server with the standard settings,
/// and a tick of it processes as many packets and pauses as long.
pub proof fn law_client_settings()
    ensures
        CLIENT_CHANNEL_BUFFER == SpawnConfig::standard().channel_buffer,
        CLIENT_POLL_BATCH == SpawnConfig::standard().poll_batch,
        CLIENT_TICK_NANOS == SpawnConfig::standard().tick_interval_nanos,
{
}

} // verus!

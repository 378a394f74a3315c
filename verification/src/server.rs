//! The server's side of the bridge: its commands, its events and the decisions of the
//! thread that runs the transport.

use crate::channel::{
    new_server_command_channel, new_server_event_channel, take_server_command,
};
#[allow(unused_imports)]
use crate::channel::{
    server_attempts, server_command_channel, server_commands_taken, server_event_channel,
};
use crate::config::SpawnConfig;
use crate::ctext::{event_address, fits_c_string};
#[allow(unused_imports)]
use crate::ctext::utf8_lossy;
#[allow(unused_imports)]
use crate::error::{first_match, law_code_is_kept};
use crate::error::{check_done, EntError, ErrorCodes};
use crate::packet::{EntEndpoint, EntPacketHeader, RawEndpoint, RawPacketHeader};
use tokio::sync::mpsc::{Receiver, Sender};
use vstd::prelude::*;
#[allow(unused_imports)]
use vstd::std_specs::convert::FromSpec;
#[allow(unused_imports)]
use vstd::utf8::{decode_utf8, valid_utf8};

verus! {

/// What a user asks of a server's thread.
#[derive(Debug)]
pub enum ServerCommand {
    SendTo { data: Vec<u8>, channel_id: u8, dest: EntEndpoint, flags: u8 },
    Disconnect { endpoint: EntEndpoint },
    Stop,
}

/// What a server's thread tells its user.
#[derive(Debug)]
pub enum ServerEvent {
    ClientConnected { endpoint: EntEndpoint, address: String, port: u16 },
    ClientDisconnected { endpoint: EntEndpoint, address: String, port: u16 },
    DataReceived { header: EntPacketHeader, payload: Vec<u8>, sender: EntEndpoint },
}

impl ServerEvent {
    /// The event for a client that has connected.
    pub fn connected(key: RawEndpoint, address: String, port: u16) -> (r: ServerEvent)
        ensures
            r == (ServerEvent::ClientConnected {
                endpoint: EntEndpoint::from_spec(key),
                address,
                port,
            }),
    {
        ServerEvent::ClientConnected { endpoint: EntEndpoint::from(key), address, port }
    }

    /// The event for a client that has disconnected.
    pub fn disconnected(key: RawEndpoint, address: String, port: u16) -> (r: ServerEvent)
        ensures
            r == (ServerEvent::ClientDisconnected {
                endpoint: EntEndpoint::from_spec(key),
                address,
                port,
            }),
    {
        ServerEvent::ClientDisconnected { endpoint: EntEndpoint::from(key), address, port }
    }

    /// The event for a client that has connected, from the bytes of its address, or
    /// from no address where the transport passed a null pointer.
    pub fn on_client_connected(key: RawEndpoint, address: Option<&[u8]>, port: u16) -> (r:
        ServerEvent)
        ensures
            r matches ServerEvent::ClientConnected { endpoint: e, address: a, port: p } && e
                == EntEndpoint::from_spec(key) && p == port && (address is None ==> a@
                == Seq::<char>::empty()) && (address is Some ==> a@ == utf8_lossy(address->0@)) && (
            address is Some && valid_utf8(address->0@) ==> a@ == decode_utf8(address->0@)),
    {
        ServerEvent::connected(key, event_address(address), port)
    }

    /// The event for a client that has disconnected, from the bytes of its address, or
    /// from no address where the transport passed a null pointer.
    pub fn on_client_disconnected(key: RawEndpoint, address: Option<&[u8]>, port: u16) -> (r:
        ServerEvent)
        ensures
            r matches ServerEvent::ClientDisconnected { endpoint: e, address: a, port: p } && e
                == EntEndpoint::from_spec(key) && p == port && (address is None ==> a@
                == Seq::<char>::empty()) && (address is Some ==> a@ == utf8_lossy(address->0@)) && (
            address is Some && valid_utf8(address->0@) ==> a@ == decode_utf8(address->0@)),
    {
        ServerEvent::disconnected(key, event_address(address), port)
    }

    /// The event for data from a client.
    pub fn on_client_data(header: &RawPacketHeader, payload: &[u8], sender: RawEndpoint) -> (r:
        ServerEvent)
        ensures
            r matches ServerEvent::DataReceived { header: h, payload: p, sender: s } && h
                == EntPacketHeader::from_spec(header) && p@ == payload@ && s
                == EntEndpoint::from_spec(sender),
    {
        ServerEvent::DataReceived {
            header: EntPacketHeader::from(header),
            payload: vstd::slice::slice_to_vec(payload),
            sender: EntEndpoint::from(sender),
        }
    }
}

/// Where the server's thread stands: the action that it was last told to perform.
#[derive(Debug, Clone, Copy, PartialEq, Eq, Structural)]
pub enum ServerPhase {
    /// Nothing has been performed yet.
    Idle,
    Creating,
    SettingWorkers,
    RegisteringChannels,
    InstallingCallbacks,
    Starting,
    /// A command is being taken from the channel, if one waits.
    Receiving,
    /// A command is being carried out.
    Performing,
    Polling,
    Updating,
    Sleeping,
    Stopping,
    ReleasingCallbacks,
    /// The thread has ended after a stop.
    Finished,
    /// The thread has ended with a failure.
    Failed,
}

/// Why a server's thread cannot run.
#[derive(Debug, Clone, Copy, PartialEq, Eq, Structural)]
pub enum ServerFailure {
    /// The address to bind to cannot be passed to the transport.
    InvalidAddress,
    /// The transport has made no server.
    NoServer,
    /// The transport has refused to start the server.
    NotStarted(EntError),
}

/// What became of the action that the server's thread has performed.
#[derive(Debug)]
pub enum ServerInput {
    /// It is done; what it returned, if anything, does not matter.
    Done,
    /// Whether the transport has made a server.
    Created(bool),
    /// What starting the server returned.
    Started(i32),
    /// The command that waited in the channel, if one did.
    Received(Option<ServerCommand>),
}

/// What the server's thread is to do next.
#[derive(Debug)]
pub enum ServerAction {
    Create { port: u16, bind_address: String },
    SetWorkerCount(i32),
    RegisterDefaultChannels,
    /// Have connects, disconnects and data reported as events.
    InstallCallbacks,
    Start,
    /// Take a command from the channel, if one waits.
    Receive,
    SendTo { data: Vec<u8>, channel_id: u8, dest: EntEndpoint, flags: u8 },
    DisconnectClient { endpoint: EntEndpoint },
    /// Process up to this many packets.
    Poll(i32),
    Update,
    /// Pause for this many nanoseconds.
    Sleep(u128),
    Stop,
    ReleaseCallbacks,
    Exit,
    Abort(ServerFailure),
}

/// The decisions of a server's thread.
#[derive(Debug)]
pub struct ServerBridge {
    pub bind_address: String,
    pub port: u16,
    pub worker_count: i32,
    pub config: SpawnConfig,
    pub codes: ErrorCodes,
    pub phase: ServerPhase,
}

impl ServerBridge {
    /// Whether `input` can be what became of the action that the phase stands for.
    pub open spec fn expects(self, input: ServerInput) -> bool {
        match self.phase {
            ServerPhase::Creating => input is Created,
            ServerPhase::Starting => input is Started,
            ServerPhase::Receiving => input is Received,
            ServerPhase::Finished | ServerPhase::Failed => false,
            _ => input is Done,
        }
    }

    /// The phase after `input`, and the action that it stands for.
    pub open spec fn decision(self, input: ServerInput) -> (ServerPhase, ServerAction) {
        match self.phase {
            ServerPhase::Idle => if self.bind_address@.contains('\0') {
                (ServerPhase::Failed, ServerAction::Abort(ServerFailure::InvalidAddress))
            } else {
                (
                    ServerPhase::Creating,
                    ServerAction::Create { port: self.port, bind_address: self.bind_address },
                )
            },
            ServerPhase::Creating => if input->Created_0 {
                (ServerPhase::SettingWorkers, ServerAction::SetWorkerCount(self.worker_count))
            } else {
                (ServerPhase::Failed, ServerAction::Abort(ServerFailure::NoServer))
            },
            ServerPhase::SettingWorkers => (
                ServerPhase::RegisteringChannels,
                ServerAction::RegisterDefaultChannels,
            ),
            ServerPhase::RegisteringChannels => (
                ServerPhase::InstallingCallbacks,
                ServerAction::InstallCallbacks,
            ),
            ServerPhase::InstallingCallbacks => (ServerPhase::Starting, ServerAction::Start),
            ServerPhase::Starting => if input->Started_0 >= 0 {
                (ServerPhase::Receiving, ServerAction::Receive)
            } else {
                (
                    ServerPhase::Failed,
                    ServerAction::Abort(
                        ServerFailure::NotStarted(
                            first_match(self.codes.table(), input->Started_0),
                        ),
                    ),
                )
            },
            ServerPhase::Receiving => match input->Received_0 {
                Some(ServerCommand::SendTo { data, channel_id, dest, flags }) => (
                    ServerPhase::Performing,
                    ServerAction::SendTo { data, channel_id, dest, flags },
                ),
                Some(ServerCommand::Disconnect { endpoint }) => (
                    ServerPhase::Performing,
                    ServerAction::DisconnectClient { endpoint },
                ),
                Some(ServerCommand::Stop) => (ServerPhase::Stopping, ServerAction::Stop),
                None => (ServerPhase::Polling, ServerAction::Poll(self.config.poll_batch)),
            },
            ServerPhase::Performing => (ServerPhase::Receiving, ServerAction::Receive),
            ServerPhase::Polling => (ServerPhase::Updating, ServerAction::Update),
            ServerPhase::Updating => (
                ServerPhase::Sleeping,
                ServerAction::Sleep(self.config.tick_interval_nanos),
            ),
            ServerPhase::Sleeping => (ServerPhase::Receiving, ServerAction::Receive),
            ServerPhase::Stopping => (
                ServerPhase::ReleasingCallbacks,
                ServerAction::ReleaseCallbacks,
            ),
            ServerPhase::ReleasingCallbacks => (ServerPhase::Finished, ServerAction::Exit),
            ServerPhase::Finished => (ServerPhase::Finished, ServerAction::Exit),
            ServerPhase::Failed => (ServerPhase::Failed, ServerAction::Exit),
        }
    }

    /// The bridge after `input`.
    pub open spec fn after(self, input: ServerInput) -> ServerBridge {
        ServerBridge { phase: self.decision(input).0, ..self }
    }

    /// The action that follows `input`.
    pub open spec fn action(self, input: ServerInput) -> ServerAction {
        self.decision(input).1
    }

    /// The decisions for a server at `bind_address` and `port`.
    pub fn new(
        bind_address: &str,
        port: u16,
        worker_count: i32,
        config: SpawnConfig,
        codes: ErrorCodes,
    ) -> (r: ServerBridge)
        ensures
            r.bind_address@ == bind_address@,
            r.port == port,
            r.worker_count == worker_count,
            r.config == config,
            r.codes == codes,
            r.phase is Idle,
    {
        ServerBridge {
            bind_address: String::from_str(bind_address),
            port,
            worker_count,
            config,
            codes,
            phase: ServerPhase::Idle,
        }
    }

    /// Takes what became of the last action and decides the next one.
    pub fn step(&mut self, input: ServerInput) -> (r: ServerAction)
        requires
            old(self).expects(input),
        ensures
            *final(self) == old(self).after(input),
            r == old(self).action(input),
    {
        match (self.phase, input) {
            (ServerPhase::Idle, _) => {
                if fits_c_string(self.bind_address.as_str()) {
                    self.phase = ServerPhase::Creating;
                    ServerAction::Create { port: self.port, bind_address: self.bind_address.clone() }
                } else {
                    self.phase = ServerPhase::Failed;
                    ServerAction::Abort(ServerFailure::InvalidAddress)
                }
            },
            (ServerPhase::Creating, ServerInput::Created(made)) => {
                if made {
                    self.phase = ServerPhase::SettingWorkers;
                    ServerAction::SetWorkerCount(self.worker_count)
                } else {
                    self.phase = ServerPhase::Failed;
                    ServerAction::Abort(ServerFailure::NoServer)
                }
            },
            (ServerPhase::SettingWorkers, _) => {
                self.phase = ServerPhase::RegisteringChannels;
                ServerAction::RegisterDefaultChannels
            },
            (ServerPhase::RegisteringChannels, _) => {
                self.phase = ServerPhase::InstallingCallbacks;
                ServerAction::InstallCallbacks
            },
            (ServerPhase::InstallingCallbacks, _) => {
                self.phase = ServerPhase::Starting;
                ServerAction::Start
            },
            (ServerPhase::Starting, ServerInput::Started(code)) => {
                match check_done(code, &self.codes) {
                    Ok(_) => {
                        self.phase = ServerPhase::Receiving;
                        ServerAction::Receive
                    },
                    Err(e) => {
                        self.phase = ServerPhase::Failed;
                        ServerAction::Abort(ServerFailure::NotStarted(e))
                    },
                }
            },
            (ServerPhase::Receiving, ServerInput::Received(command)) => match command {
                Some(ServerCommand::SendTo { data, channel_id, dest, flags }) => {
                    self.phase = ServerPhase::Performing;
                    ServerAction::SendTo { data, channel_id, dest, flags }
                },
                Some(ServerCommand::Disconnect { endpoint }) => {
                    self.phase = ServerPhase::Performing;
                    ServerAction::DisconnectClient { endpoint }
                },
                Some(ServerCommand::Stop) => {
                    self.phase = ServerPhase::Stopping;
                    ServerAction::Stop
                },
                None => {
                    self.phase = ServerPhase::Polling;
                    ServerAction::Poll(self.config.poll_batch)
                },
            },
            (ServerPhase::Polling, _) => {
                self.phase = ServerPhase::Updating;
                ServerAction::Update
            },
            (ServerPhase::Updating, _) => {
                self.phase = ServerPhase::Sleeping;
                ServerAction::Sleep(self.config.tick_interval_nanos)
            },
            (ServerPhase::Performing, _) | (ServerPhase::Sleeping, _) => {
                self.phase = ServerPhase::Receiving;
                ServerAction::Receive
            },
            (ServerPhase::Stopping, _) => {
                self.phase = ServerPhase::ReleasingCallbacks;
                ServerAction::ReleaseCallbacks
            },
            (ServerPhase::ReleasingCallbacks, _) => {
                self.phase = ServerPhase::Finished;
                ServerAction::Exit
            },
            _ => ServerAction::Exit,
        }
    }

    /// Takes a command from the channel, if one waits, and decides what to do: the channel
    /// is asked once, and the command that was taken is the one that is acted on.
    pub fn receive(&mut self, commands: &mut Receiver<ServerCommand>) -> (r: ServerAction)
        requires
            old(self).phase is Receiving,
        ensures
            exists|command: Option<ServerCommand>|
                {
                    &&& *final(self) == #[trigger] old(self).after(ServerInput::Received(command))
                    &&& r == old(self).action(ServerInput::Received(command))
                    &&& takes(*old(commands), command, *final(commands))
                },
            server_attempts(*final(commands)) == server_attempts(*old(commands)) + 1,
    {
        let command = take_server_command(commands);
        self.step(ServerInput::Received(command))
    }
}

/// Whether the receiving end `after` is what the end `before` has become when a command was
/// asked for through it once, and `command` was taken, or nothing was.
pub open spec fn takes(
    before: Receiver<ServerCommand>,
    command: Option<ServerCommand>,
    after: Receiver<ServerCommand>,
) -> bool {
    &&& server_commands_taken(after) == match command {
        Some(c) => server_commands_taken(before).push(c),
        None => server_commands_taken(before),
    }
    &&& server_attempts(after) == server_attempts(before) + 1
}

/// A user's ends of the channels to a server's thread.
pub struct EntServerHandle {
    pub tx: Sender<ServerCommand>,
    pub rx: Receiver<ServerEvent>,
}

/// All that a server's thread and its user need before the thread is started.
pub struct ServerSpawn {
    /// The user's ends.
    pub handle: EntServerHandle,
    /// The thread's end for commands.
    pub commands: Receiver<ServerCommand>,
    /// The thread's end for events.
    pub events: Sender<ServerEvent>,
    /// The thread's decisions.
    pub bridge: ServerBridge,
}

/// Prepares a server with the standard settings.
pub fn spawn_server(bind_address: &str, port: u16, worker_count: i32, codes: ErrorCodes) -> (r:
    ServerSpawn)
    ensures
        server_command_channel(r.handle.tx, r.commands) == Some(1024nat),
        server_commands_taken(r.commands) == Seq::<ServerCommand>::empty(),
        server_attempts(r.commands) == 0,
        server_event_channel(r.events, r.handle.rx) == Some(1024nat),
        r.bridge.bind_address@ == bind_address@,
        r.bridge.port == port,
        r.bridge.worker_count == worker_count,
        r.bridge.config == SpawnConfig::standard(),
        r.bridge.codes == codes,
        r.bridge.phase is Idle,
{
    spawn_server_with_config(bind_address, port, worker_count, SpawnConfig::default(), codes)
}

/// Prepares a server: the channels to its thread, and the thread's decisions.
pub fn spawn_server_with_config(
    bind_address: &str,
    port: u16,
    worker_count: i32,
    config: SpawnConfig,
    codes: ErrorCodes,
) -> (r: ServerSpawn)
    requires
        config.has_valid_buffer(),
    ensures
        server_command_channel(r.handle.tx, r.commands) == Some(config.channel_buffer as nat),
        server_commands_taken(r.commands) == Seq::<ServerCommand>::empty(),
        server_attempts(r.commands) == 0,
        server_event_channel(r.events, r.handle.rx) == Some(config.channel_buffer as nat),
        r.bridge.bind_address@ == bind_address@,
        r.bridge.port == port,
        r.bridge.worker_count == worker_count,
        r.bridge.config == config,
        r.bridge.codes == codes,
        r.bridge.phase is Idle,
{
    let (command_tx, command_rx) = new_server_command_channel(config.channel_buffer);
    let (event_tx, event_rx) = new_server_event_channel(config.channel_buffer);
    ServerSpawn {
        handle: EntServerHandle { tx: command_tx, rx: event_rx },
        commands: command_rx,
        events: event_tx,
        bridge: ServerBridge::new(bind_address, port, worker_count, config, codes),
    }
}

/// Whether each input is one that the bridge expects when it comes.
pub open spec fn all_expected(bridge: ServerBridge, inputs: Seq<ServerInput>) -> bool
    decreases inputs.len(),
{
    inputs.len() > 0 ==> bridge.expects(inputs[0]) && all_expected(
        bridge.after(inputs[0]),
        inputs.drop_first(),
    )
}

/// The actions that a run of inputs leads to, one for each.
pub open spec fn actions(bridge: ServerBridge, inputs: Seq<ServerInput>) -> Seq<ServerAction>
    decreases inputs.len(),
{
    if inputs.len() == 0 {
        Seq::empty()
    } else {
        seq![bridge.action(inputs[0])] + actions(bridge.after(inputs[0]), inputs.drop_first())
    }
}

/// The bridge after a run of inputs.
pub open spec fn end(bridge: ServerBridge, inputs: Seq<ServerInput>) -> ServerBridge
    decreases inputs.len(),
{
    if inputs.len() == 0 {
        bridge
    } else {
        end(bridge.after(inputs[0]), inputs.drop_first())
    }
}

/// The commands that were received in a run of inputs, in order.
pub open spec fn received(inputs: Seq<ServerInput>) -> Seq<ServerCommand>
    decreases inputs.len(),
{
    if inputs.len() == 0 {
        Seq::empty()
    } else {
        match inputs[0] {
            ServerInput::Received(Some(command)) => seq![command] + received(inputs.drop_first()),
            _ => received(inputs.drop_first()),
        }
    }
}

/// The commands that a run of actions carries out, in order.
pub open spec fn carried_out(acts: Seq<ServerAction>) -> Seq<ServerCommand>
    decreases acts.len(),
{
    if acts.len() == 0 {
        Seq::empty()
    } else {
        let rest = carried_out(acts.drop_first());
        match acts[0] {
            ServerAction::SendTo { data, channel_id, dest, flags } => seq![
                ServerCommand::SendTo { data, channel_id, dest, flags },
            ] + rest,
            ServerAction::DisconnectClient { endpoint } => seq![
                ServerCommand::Disconnect { endpoint },
            ] + rest,
            ServerAction::Stop => seq![ServerCommand::Stop] + rest,
            _ => rest,
        }
    }
}

/// Every command that is received is carried out, once, in the order of receipt, and
/// nothing else is.
pub proof fn law_commands_in_order(bridge: ServerBridge, inputs: Seq<ServerInput>)
    requires
        all_expected(bridge, inputs),
    ensures
        carried_out(actions(bridge, inputs)) == received(inputs),
    decreases inputs.len(),
{
    if inputs.len() > 0 {
        law_commands_in_order(bridge.after(inputs[0]), inputs.drop_first());
        assert(actions(bridge, inputs).drop_first() =~= actions(
            bridge.after(inputs[0]),
            inputs.drop_first(),
        ));
    }
}

/// Whether the inputs of a run that are receipts were taken from the channel, whose
/// receiving end is `ends[i]` before input `i`.
pub open spec fn from_channel(ends: Seq<Receiver<ServerCommand>>, inputs: Seq<ServerInput>) -> bool {
    &&& ends.len() == inputs.len() + 1
    &&& forall|i: int|
        0 <= i < inputs.len() ==> match #[trigger] inputs[i] {
            ServerInput::Received(command) => takes(ends[i], command, ends[i + 1]),
            _ => ends[i + 1] == ends[i],
        }
}

/// How many inputs of a run are receipts.
pub open spec fn receipts(inputs: Seq<ServerInput>) -> nat
    decreases inputs.len(),
{
    if inputs.len() == 0 {
        0
    } else {
        receipts(inputs.drop_first()) + if inputs[0] is Received {
            1nat
        } else {
            0
        }
    }
}

/// The commands that a run takes out of the channel are those that it carries out, in the
/// order in which they were taken: none is dropped, repeated or made up. The channel is
/// asked once for each receipt.
pub proof fn law_taken_commands_are_carried_out(
    bridge: ServerBridge,
    inputs: Seq<ServerInput>,
    ends: Seq<Receiver<ServerCommand>>,
)
    requires
        all_expected(bridge, inputs),
        from_channel(ends, inputs),
    ensures
        server_commands_taken(ends.last()) == server_commands_taken(ends[0]) + carried_out(
            actions(bridge, inputs),
        ),
        server_attempts(ends.last()) == server_attempts(ends[0]) + receipts(inputs),
    decreases inputs.len(),
{
    let taken = server_commands_taken(ends[0]);
    if inputs.len() > 0 {
        let next = bridge.after(inputs[0]);
        let rest = inputs.drop_first();
        let later = ends.drop_first();
        assert forall|i: int| 0 <= i < rest.len() implies match #[trigger] rest[i] {
            ServerInput::Received(command) => takes(later[i], command, later[i + 1]),
            _ => later[i + 1] == later[i],
        } by {
            assert(rest[i] == inputs[i + 1]);
        }
        law_taken_commands_are_carried_out(next, rest, later);
        law_commands_in_order(bridge, inputs);
        law_commands_in_order(next, rest);
        if let ServerInput::Received(Some(command)) = inputs[0] {
            assert(taken.push(command) + received(rest) =~= taken + (seq![command] + received(
                rest,
            )));
        }
    } else {
        assert(taken + carried_out(actions(bridge, inputs)) =~= taken);
    }
}

/// The action for an input in a run is the one that its bridge decides.
proof fn lemma_action_at(bridge: ServerBridge, inputs: Seq<ServerInput>, i: int)
    requires
        all_expected(bridge, inputs),
        0 <= i < inputs.len(),
    ensures
        actions(bridge, inputs).len() == inputs.len(),
        end(bridge, inputs.take(i)).expects(inputs[i]),
        actions(bridge, inputs)[i] == end(bridge, inputs.take(i)).action(inputs[i]),
        end(bridge, inputs.take(i + 1)) == end(bridge, inputs.take(i)).after(inputs[i]),
        end(bridge, inputs.take(i)) == (ServerBridge {
            phase: end(bridge, inputs.take(i)).phase,
            ..bridge
        }),
    decreases inputs.len(),
{
    let rest = inputs.drop_first();
    let next = bridge.after(inputs[0]);
    lemma_actions_len(bridge, inputs);
    lemma_actions_len(next, rest);
    assert(inputs.take(i + 1).drop_first() =~= rest.take(i));
    assert(inputs.take(i + 1)[0] == inputs[0]);
    assert(end(bridge, inputs.take(i + 1)) == end(next, rest.take(i)));
    if i == 0 {
        assert(inputs.take(0) =~= Seq::<ServerInput>::empty());
        assert(rest.take(0) =~= Seq::<ServerInput>::empty());
        assert(end(bridge, inputs.take(0)) == bridge);
        assert(end(next, rest.take(0)) == next);
    } else {
        assert(inputs.take(i).drop_first() =~= rest.take(i - 1));
        assert(inputs.take(i)[0] == inputs[0]);
        assert(end(bridge, inputs.take(i)) == end(next, rest.take(i - 1)));
        lemma_action_at(next, rest, i - 1);
        assert(rest[i - 1] == inputs[i]);
        assert(actions(bridge, inputs)[i] == actions(next, rest)[i - 1]);
    }
}

/// A run has as many actions as inputs.
proof fn lemma_actions_len(bridge: ServerBridge, inputs: Seq<ServerInput>)
    ensures
        actions(bridge, inputs).len() == inputs.len(),
    decreases inputs.len(),
{
    if inputs.len() > 0 {
        lemma_actions_len(bridge.after(inputs[0]), inputs.drop_first());
    }
}

/// After a stop the callbacks are released, the thread exits, and no further input is
/// expected: no command is carried out and no packet is processed any more.
pub proof fn law_stop_is_final(bridge: ServerBridge, inputs: Seq<ServerInput>, i: int)
    requires
        all_expected(bridge, inputs),
        0 <= i < inputs.len(),
        actions(bridge, inputs)[i] is Stop,
    ensures
        inputs.len() <= i + 3,
        i + 1 < inputs.len() ==> actions(bridge, inputs)[i + 1] is ReleaseCallbacks,
        i + 2 < inputs.len() ==> actions(bridge, inputs)[i + 2] is Exit,
{
    lemma_action_at(bridge, inputs, i);
    if i + 1 < inputs.len() {
        lemma_action_at(bridge, inputs, i + 1);
    }
    if i + 2 < inputs.len() {
        lemma_action_at(bridge, inputs, i + 2);
    }
    if i + 3 < inputs.len() {
        lemma_action_at(bridge, inputs, i + 3);
    }
}

/// Packets are processed only when no command waits, and then as many as the settings
/// allow.
pub proof fn law_poll_when_drained(bridge: ServerBridge, inputs: Seq<ServerInput>, i: int)
    requires
        all_expected(bridge, inputs),
        0 <= i < inputs.len(),
        actions(bridge, inputs)[i] is Poll,
    ensures
        inputs[i] == ServerInput::Received(None),
        actions(bridge, inputs)[i] == ServerAction::Poll(bridge.config.poll_batch),
{
    lemma_action_at(bridge, inputs, i);
}

/// A tick without commands processes packets, updates, pauses for the configured time
/// and is back where it began.
pub proof fn law_tick(bridge: ServerBridge)
    requires
        bridge.phase is Receiving,
    ensures
        ({
            let inputs = seq![
                ServerInput::Received(None),
                ServerInput::Done,
                ServerInput::Done,
                ServerInput::Done,
            ];
            &&& all_expected(bridge, inputs)
            &&& actions(bridge, inputs) == seq![
                ServerAction::Poll(bridge.config.poll_batch),
                ServerAction::Update,
                ServerAction::Sleep(bridge.config.tick_interval_nanos),
                ServerAction::Receive,
            ]
            &&& end(bridge, inputs) == bridge
        }),
{
    let none = ServerInput::Received(None);
    let done = ServerInput::Done;
    let inputs = seq![none, done, done, done];
    assert(inputs.drop_first() =~= seq![done, done, done]);
    assert(seq![done, done, done].drop_first() =~= seq![done, done]);
    assert(seq![done, done].drop_first() =~= seq![done]);
    assert(seq![done].drop_first() =~= Seq::<ServerInput>::empty());
    reveal_with_fuel(all_expected, 5);
    reveal_with_fuel(actions, 5);
    reveal_with_fuel(end, 5);
}

/// A server that is made and starts is set up in one order before the first command is
/// taken.
pub proof fn law_startup(bridge: ServerBridge, code: i32)
    requires
        bridge.phase is Idle,
        !bridge.bind_address@.contains('\0'),
        code >= 0,
    ensures
        ({
            let inputs = seq![
                ServerInput::Done,
                ServerInput::Created(true),
                ServerInput::Done,
                ServerInput::Done,
                ServerInput::Done,
                ServerInput::Started(code),
            ];
            &&& all_expected(bridge, inputs)
            &&& actions(bridge, inputs) == seq![
                ServerAction::Create { port: bridge.port, bind_address: bridge.bind_address },
                ServerAction::SetWorkerCount(bridge.worker_count),
                ServerAction::RegisterDefaultChannels,
                ServerAction::InstallCallbacks,
                ServerAction::Start,
                ServerAction::Receive,
            ]
        }),
{
    let done = ServerInput::Done;
    let made = ServerInput::Created(true);
    let started = ServerInput::Started(code);
    let inputs = seq![done, made, done, done, done, started];
    assert(inputs.drop_first() =~= seq![made, done, done, done, started]);
    assert(seq![made, done, done, done, started].drop_first() =~= seq![done, done, done, started]);
    assert(seq![done, done, done, started].drop_first() =~= seq![done, done, started]);
    assert(seq![done, done, started].drop_first() =~= seq![done, started]);
    assert(seq![done, started].drop_first() =~= seq![started]);
    assert(seq![started].drop_first() =~= Seq::<ServerInput>::empty());
    reveal_with_fuel(all_expected, 7);
    reveal_with_fuel(actions, 7);
}

/// A server that fails carries out no command.
pub proof fn law_failure_carries_out_nothing(
    bridge: ServerBridge,
    inputs: Seq<ServerInput>,
    i: int,
)
    requires
        bridge.phase is Idle,
        all_expected(bridge, inputs),
        0 <= i < inputs.len(),
        actions(bridge, inputs)[i] is Abort,
    ensures
        inputs.len() == i + 1,
        carried_out(actions(bridge, inputs)) == Seq::<ServerCommand>::empty(),
{
    lemma_action_at(bridge, inputs, i);
    if i + 1 < inputs.len() {
        lemma_action_at(bridge, inputs, i + 1);
    }
    lemma_before_receiving(bridge, inputs, i);
    assert(inputs.take(i + 1) =~= inputs);
    law_commands_in_order(bridge, inputs);
    lemma_received_none(inputs);
}

/// Whether the server has not come as far as taking commands.
spec fn is_setting_up(phase: ServerPhase) -> bool {
    match phase {
        ServerPhase::Idle
        | ServerPhase::Creating
        | ServerPhase::SettingWorkers
        | ServerPhase::RegisteringChannels
        | ServerPhase::InstallingCallbacks
        | ServerPhase::Starting => true,
        _ => false,
    }
}

/// Before a server that is being set up takes commands, none is received.
proof fn lemma_before_receiving(bridge: ServerBridge, inputs: Seq<ServerInput>, i: int)
    requires
        all_expected(bridge, inputs),
        0 <= i < inputs.len(),
        is_setting_up(end(bridge, inputs.take(i)).phase),
    ensures
        forall|j: int| 0 <= j <= i ==> !(#[trigger] inputs[j] is Received),
    decreases i,
{
    lemma_action_at(bridge, inputs, i);
    if i > 0 {
        lemma_action_at(bridge, inputs, i - 1);
        lemma_before_receiving(bridge, inputs, i - 1);
    }
}

/// Where no input is a receipt, no command is received.
proof fn lemma_received_none(inputs: Seq<ServerInput>)
    requires
        forall|j: int| 0 <= j < inputs.len() ==> !(#[trigger] inputs[j] is Received),
    ensures
        received(inputs) == Seq::<ServerCommand>::empty(),
    decreases inputs.len(),
{
    if inputs.len() > 0 {
        let rest = inputs.drop_first();
        assert forall|j: int| 0 <= j < rest.len() implies !(#[trigger] rest[j] is Received) by {
            assert(rest[j] == inputs[j + 1]);
        }
        lemma_received_none(rest);
        assert(!(inputs[0] is Received));
    }
}

/// What each action of a run is followed by, whatever the settings: the set-up goes on step
/// by step, every command that is taken is acted on at once, a command that has been carried
/// out is followed by the next look into the channel, and so is a pause. After the end
/// nothing follows.
pub proof fn law_what_follows(bridge: ServerBridge, inputs: Seq<ServerInput>, i: int)
    requires
        all_expected(bridge, inputs),
        0 <= i,
        i + 1 < inputs.len(),
    ensures
        ({
            let now = actions(bridge, inputs)[i];
            let next = actions(bridge, inputs)[i + 1];
            let input = inputs[i + 1];
            &&& !(now is Exit) && !(now is Abort)
            &&& now is Create ==> input == ServerInput::Created(true) && next
                == ServerAction::SetWorkerCount(bridge.worker_count) || input
                == ServerInput::Created(false) && next == ServerAction::Abort(
                ServerFailure::NoServer,
            )
            &&& now is SetWorkerCount ==> next is RegisterDefaultChannels
            &&& now is RegisterDefaultChannels ==> next is InstallCallbacks
            &&& now is InstallCallbacks ==> next is Start
            &&& now is Start ==> {
                &&& input matches ServerInput::Started(code)
                &&& code >= 0 ==> next is Receive
                &&& code < 0 ==> (next matches ServerAction::Abort(ServerFailure::NotStarted(e))
                    && bridge.codes.number_of(e) == code)
            }
            &&& now is Receive ==> match input {
                ServerInput::Received(
                    Some(ServerCommand::SendTo { data, channel_id, dest, flags }),
                ) => next == ServerAction::SendTo { data, channel_id, dest, flags },
                ServerInput::Received(Some(ServerCommand::Disconnect { endpoint })) => next
                    == ServerAction::DisconnectClient { endpoint },
                ServerInput::Received(Some(ServerCommand::Stop)) => next is Stop,
                ServerInput::Received(None) => next == ServerAction::Poll(
                    bridge.config.poll_batch,
                ),
                _ => false,
            }
            &&& now is SendTo ==> next is Receive
            &&& now is DisconnectClient ==> next is Receive
            &&& now is Poll ==> next is Update
            &&& now is Update ==> next == ServerAction::Sleep(bridge.config.tick_interval_nanos)
            &&& now is Sleep ==> next is Receive
            &&& now is Stop ==> next is ReleaseCallbacks
            &&& now is ReleaseCallbacks ==> next is Exit
        }),
{
    lemma_action_at(bridge, inputs, i);
    lemma_action_at(bridge, inputs, i + 1);
    if let ServerInput::Started(code) = inputs[i + 1] {
        law_code_is_kept(bridge.codes, code);
    }
}

/// Whether a server's thread has not been told to end.
pub open spec fn is_alive(phase: ServerPhase) -> bool {
    match phase {
        ServerPhase::Stopping
        | ServerPhase::ReleasingCallbacks
        | ServerPhase::Finished
        | ServerPhase::Failed => false,
        _ => true,
    }
}

/// A server's thread exits only after a stop was taken from the channel, and it aborts only
/// while it is being set up, because of what the transport reported or of its address.
pub proof fn law_ends_only_on_stop(bridge: ServerBridge, inputs: Seq<ServerInput>, i: int)
    requires
        is_alive(bridge.phase),
        all_expected(bridge, inputs),
        0 <= i < inputs.len(),
    ensures
        end(bridge, inputs.take(i + 1)).phase is Finished ==> actions(bridge, inputs)[i] is Exit,
        actions(bridge, inputs)[i] is Exit ==> {
            &&& i >= 2
            &&& inputs[i - 2] == ServerInput::Received(Some(ServerCommand::Stop))
            &&& actions(bridge, inputs)[i - 2] is Stop
        },
        actions(bridge, inputs)[i] is Abort ==> {
            ||| inputs[i] == ServerInput::Created(false)
            ||| (inputs[i] matches ServerInput::Started(code) && code < 0)
            ||| i == 0 && bridge.phase is Idle && bridge.bind_address@.contains('\0')
        },
{
    lemma_action_at(bridge, inputs, i);
    assert(inputs.take(0) =~= Seq::<ServerInput>::empty());
    if i >= 1 {
        lemma_action_at(bridge, inputs, i - 1);
    }
    if i >= 2 {
        lemma_action_at(bridge, inputs, i - 2);
    }
}

/// A server's thread begins by making the server, where its address can be passed on, and
/// aborts where it cannot.
pub proof fn law_first_action(bridge: ServerBridge)
    requires
        bridge.phase is Idle,
    ensures
        bridge.expects(ServerInput::Done),
        bridge.bind_address@.contains('\0') ==> bridge.action(ServerInput::Done)
            == ServerAction::Abort(ServerFailure::InvalidAddress),
        !bridge.bind_address@.contains('\0') ==> bridge.action(ServerInput::Done)
            == (ServerAction::Create { port: bridge.port, bind_address: bridge.bind_address }),
{
}

/// A run never gets stuck: after each action but the last, whatever can come of that action
/// is expected, and the settings are those that the run began with.
pub proof fn law_runs_go_on(bridge: ServerBridge, inputs: Seq<ServerInput>)
    requires
        all_expected(bridge, inputs),
        inputs.len() > 0,
    ensures
        ({
            let last = actions(bridge, inputs)[inputs.len() - 1];
            let now = end(bridge, inputs);
            &&& match last {
                ServerAction::Create { .. } => forall|made: bool|
                    now.expects(ServerInput::Created(made)),
                ServerAction::Start => forall|code: i32| now.expects(ServerInput::Started(code)),
                ServerAction::Receive => forall|command: Option<ServerCommand>|
                    now.expects(ServerInput::Received(command)),
                ServerAction::Exit | ServerAction::Abort(_) => true,
                _ => now.expects(ServerInput::Done),
            }
            &&& now.bind_address == bridge.bind_address && now.port == bridge.port
            &&& now.worker_count == bridge.worker_count && now.config == bridge.config
            &&& now.codes == bridge.codes
        }),
{
    let n = inputs.len() - 1;
    lemma_action_at(bridge, inputs, n);
    assert(inputs.take(n + 1) =~= inputs);
}

} // verus!

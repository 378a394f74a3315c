//! The channels between the transport's thread and its users.

use crate::client::{ClientCommand, ClientEvent};
use crate::server::{ServerCommand, ServerEvent};
use tokio::sync::mpsc::{Receiver, Sender};
use vstd::prelude::*;

verus! {

/// The sending end of a bounded channel of the crate `tokio`.
#[verifier::external_type_specification]
#[verifier::external_body]
#[verifier::reject_recursive_types(T)]
pub struct ExSender<T>(tokio::sync::mpsc::Sender<T>);

/// The receiving end of a bounded channel of the crate `tokio`.
#[verifier::external_type_specification]
#[verifier::external_body]
#[verifier::reject_recursive_types(T)]
pub struct ExReceiver<T>(tokio::sync::mpsc::Receiver<T>);

/// The commands that have been taken out of a server's channel through its receiving end
/// `rx`, in the order in which they were taken.
pub uninterp spec fn server_commands_taken(rx: Receiver<ServerCommand>) -> Seq<ServerCommand>;

/// How often a command has been asked for through the receiving end `rx` of a server's
/// channel, whether or not one waited.
pub uninterp spec fn server_attempts(rx: Receiver<ServerCommand>) -> nat;

/// The commands that have been taken out of a client's channel through its receiving end
/// `rx`, in the order in which they were taken.
pub uninterp spec fn client_commands_taken(rx: Receiver<ClientCommand>) -> Seq<ClientCommand>;

/// How often a command has been asked for through the receiving end `rx` of a client's
/// channel, whether or not one waited.
pub uninterp spec fn client_attempts(rx: Receiver<ClientCommand>) -> nat;

/// Calls `Receiver::try_recv` of the crate `tokio`, which takes one command out of the
/// channel and gives it, or takes none and reports that none waits. The command that is
/// given is the one that was taken, behind those that were taken before, and the call is
/// one attempt more. Which of the two
/// happens, and which command it is, is up to the threads that send, and is not stated.
#[verifier::external_body]
pub(crate) fn take_server_command(rx: &mut Receiver<ServerCommand>) -> (r: Option<ServerCommand>)
    ensures
        match r {
            Some(c) => server_commands_taken(*final(rx)) == server_commands_taken(*old(rx)).push(c),
            None => server_commands_taken(*final(rx)) == server_commands_taken(*old(rx)),
        },
        server_attempts(*final(rx)) == server_attempts(*old(rx)) + 1,
{
    rx.try_recv().ok()
}

/// Calls `Receiver::try_recv` of the crate `tokio`, which takes one command out of the
/// channel and gives it, or takes none and reports that none waits. The command that is
/// given is the one that was taken, behind those that were taken before, and the call is
/// one attempt more. Which of the two
/// happens, and which command it is, is up to the threads that send, and is not stated.
#[verifier::external_body]
pub(crate) fn take_client_command(rx: &mut Receiver<ClientCommand>) -> (r: Option<ClientCommand>)
    ensures
        match r {
            Some(c) => client_commands_taken(*final(rx)) == client_commands_taken(*old(rx)).push(c),
            None => client_commands_taken(*final(rx)) == client_commands_taken(*old(rx)),
        },
        client_attempts(*final(rx)) == client_attempts(*old(rx)) + 1,
{
    rx.try_recv().ok()
}

/// The capacity of the channel whose two ends are `tx` and `rx`, if they are the ends
/// of one channel.
pub uninterp spec fn server_command_channel(
    tx: Sender<ServerCommand>,
    rx: Receiver<ServerCommand>,
) -> Option<nat>;

/// The capacity of the channel whose two ends are `tx` and `rx`, if they are the ends
/// of one channel.
pub uninterp spec fn server_event_channel(
    tx: Sender<ServerEvent>,
    rx: Receiver<ServerEvent>,
) -> Option<nat>;

/// The capacity of the channel whose two ends are `tx` and `rx`, if they are the ends
/// of one channel.
pub uninterp spec fn client_command_channel(
    tx: Sender<ClientCommand>,
    rx: Receiver<ClientCommand>,
) -> Option<nat>;

/// The capacity of the channel whose two ends are `tx` and `rx`, if they are the ends
/// of one channel.
pub uninterp spec fn client_event_channel(
    tx: Sender<ClientEvent>,
    rx: Receiver<ClientEvent>,
) -> Option<nat>;

/// Calls `tokio::sync::mpsc::channel`, which makes a channel that holds up to
/// `buffer` messages and gives its two ends; nothing has been asked for or taken out of
/// it yet. It panics where `buffer` is zero or more than an eighth of the address range,
/// so neither is passed.
#[verifier::external_body]
pub(crate) fn new_server_command_channel(buffer: usize) -> (r: (
    Sender<ServerCommand>,
    Receiver<ServerCommand>,
))
    requires
        0 < buffer <= usize::MAX / 8,
    ensures
        server_command_channel(r.0, r.1) == Some(buffer as nat),
        server_commands_taken(r.1) == Seq::<ServerCommand>::empty(),
        server_attempts(r.1) == 0,
{
    tokio::sync::mpsc::channel(buffer)
}

/// Calls `tokio::sync::mpsc::channel`, which makes a channel that holds up to
/// `buffer` messages and gives its two ends. It panics where `buffer` is zero or more
/// than an eighth of the address range, so neither is passed.
#[verifier::external_body]
pub(crate) fn new_server_event_channel(buffer: usize) -> (r: (
    Sender<ServerEvent>,
    Receiver<ServerEvent>,
))
    requires
        0 < buffer <= usize::MAX / 8,
    ensures
        server_event_channel(r.0, r.1) == Some(buffer as nat),
{
    tokio::sync::mpsc::channel(buffer)
}

/// Calls `tokio::sync::mpsc::channel`, which makes a channel that holds up to
/// `buffer` messages and gives its two ends; nothing has been asked for or taken out of
/// it yet. It panics where `buffer` is zero or more than an eighth of the address range,
/// so neither is passed.
#[verifier::external_body]
pub(crate) fn new_client_command_channel(buffer: usize) -> (r: (
    Sender<ClientCommand>,
    Receiver<ClientCommand>,
))
    requires
        0 < buffer <= usize::MAX / 8,
    ensures
        client_command_channel(r.0, r.1) == Some(buffer as nat),
        client_commands_taken(r.1) == Seq::<ClientCommand>::empty(),
        client_attempts(r.1) == 0,
{
    tokio::sync::mpsc::channel(buffer)
}

/// Calls `tokio::sync::mpsc::channel`, which makes a channel that holds up to
/// `buffer` messages and gives its two ends. It panics where `buffer` is zero or more
/// than an eighth of the address range, so neither is passed.
#[verifier::external_body]
pub(crate) fn new_client_event_channel(buffer: usize) -> (r: (
    Sender<ClientEvent>,
    Receiver<ClientEvent>,
))
    requires
        0 < buffer <= usize::MAX / 8,
    ensures
        client_event_channel(r.0, r.1) == Some(buffer as nat),
{
    tokio::sync::mpsc::channel(buffer)
}

} // verus!

//! The loopback test: which events a connection, a message and a disconnect must cause.

use crate::client::ClientEvent;
use crate::server::ServerEvent;
use vstd::prelude::*;

verus! {

/// How many steps of the test have passed and failed.
#[derive(Debug, Clone, Copy, PartialEq, Eq, Structural)]
pub struct LoopbackTally {
    pub passed: u32,
    pub failed: u32,
}

impl LoopbackTally {
    /// No step has been taken.
    pub fn new() -> (r: LoopbackTally)
        ensures
            r.passed == 0,
            r.failed == 0,
    {
        LoopbackTally { passed: 0, failed: 0 }
    }

    /// Counts a step.
    pub fn record(&mut self, ok: bool)
        requires
            old(self).passed + old(self).failed < u32::MAX,
        ensures
            ok ==> final(self).passed == old(self).passed + 1 && final(self).failed == old(
                self,
            ).failed,
            !ok ==> final(self).passed == old(self).passed && final(self).failed == old(self).failed
                + 1,
    {
        if ok {
            self.passed = self.passed + 1;
        } else {
            self.failed = self.failed + 1;
        }
    }

    /// The number of steps that were taken.
    pub fn total(&self) -> (r: u32)
        requires
            self.passed + self.failed <= u32::MAX,
        ensures
            r == self.passed + self.failed,
    {
        self.passed + self.failed
    }

    /// Whether no step has failed.
    pub fn all_passed(&self) -> (r: bool)
        ensures
            r == (self.failed == 0),
    {
        self.failed == 0
    }
}

/// Whether the client was told that it is connected; there is no event where none came
/// in time.
pub fn client_saw_connect(event: &Option<ClientEvent>) -> (r: bool)
    ensures
        r == (*event == Some(ClientEvent::Connected)),
{
    match event {
        Some(ClientEvent::Connected) => true,
        _ => false,
    }
}

/// Whether the server was told that a client has connected.
pub fn server_saw_connect(event: &Option<ServerEvent>) -> (r: bool)
    ensures
        r == (event is Some && event->0 is ClientConnected),
{
    match event {
        Some(ServerEvent::ClientConnected { .. }) => true,
        _ => false,
    }
}

/// Whether the server was told that a client has disconnected.
pub fn server_saw_disconnect(event: &Option<ServerEvent>) -> (r: bool)
    ensures
        r == (event is Some && event->0 is ClientDisconnected),
{
    match event {
        Some(ServerEvent::ClientDisconnected { .. }) => true,
        _ => false,
    }
}

/// Whether two runs of bytes are the same.
pub fn same_bytes(a: &[u8], b: &[u8]) -> (r: bool)
    ensures
        r == (a@ == b@),
{
    if a.len() != b.len() {
        return false;
    }
    let mut k: usize = 0;
    while k < a.len()
        invariant
            k <= a@.len(),
            a@.len() == b@.len(),
            forall|i: int| 0 <= i < k ==> a@[i] == b@[i],
        decreases a@.len() - k,
    {
        if a[k] != b[k] {
            return false;
        }
        k += 1;
    }
    assert(a@ =~= b@);
    true
}

/// Whether the server was given exactly the bytes that the client has sent.
pub fn server_saw_data(event: &Option<ServerEvent>, expected: &[u8]) -> (r: bool)
    ensures
        r == (event is Some && event->0 is DataReceived && event->0->DataReceived_payload@
            == expected@),
{
    match event {
        Some(ServerEvent::DataReceived { payload, .. }) => same_bytes(
            payload.as_slice(),
            expected,
        ),
        _ => false,
    }
}

} // verus!

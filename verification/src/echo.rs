//! What a server does with the messages that it echoes: what it sends back, what it counts,
//! and when it frees the buffer of a message that came in fragments.

use crate::buffers::{alloc_buf, free_buf, AllocMap};
use crate::error::is_accepted;
use crate::packet::{EntEndpoint, EntPacketHeader, RawPacketHeader};
use vstd::prelude::*;

verus! {

/// Where the echo of a message goes: back to its sender, on the channel that it came on, with
/// no flags.
pub fn echo_route(header: &EntPacketHeader, sender: EntEndpoint) -> (r: (u8, EntEndpoint, u8))
    ensures
        r.0 == header.channel_id,
        r.1 == sender,
        r.2 == 0,
{
    (header.channel_id, sender, 0)
}

/// What the transport reports to a server that echoes.
#[derive(Debug)]
pub enum EchoEvent<'a> {
    /// A message in one packet.
    Data { header: &'a EntPacketHeader, payload: &'a [u8], sender: EntEndpoint },
    /// A packet with so many messages.
    Coalesced { header: &'a EntPacketHeader, payload: &'a [u8], count: u64, sender: EntEndpoint },
    /// A message in fragments, which is complete in the buffer at `addr`.
    Complete { addr: usize, payload: &'a [u8], channel_id: u8, sender: EntEndpoint },
    /// A message in fragments, which will not be completed in the buffer at `addr`.
    Failed { addr: usize },
}

/// What a server sends back.
#[derive(Debug)]
pub enum EchoReply<'a> {
    /// A message of these bytes.
    Message { payload: &'a [u8], channel_id: u8, dest: EntEndpoint, flags: u8 },
    /// A whole packet.
    Packet { header: RawPacketHeader, payload: &'a [u8], dest: EntEndpoint },
}

impl<'a> EchoEvent<'a> {
    /// How many messages have come.
    pub open spec fn count(self) -> u64 {
        match self {
            EchoEvent::Data { .. } | EchoEvent::Complete { .. } => 1,
            EchoEvent::Coalesced { count, .. } => count,
            EchoEvent::Failed { .. } => 0,
        }
    }

    /// The address of the buffer that the transport is done with.
    pub open spec fn buffer(self) -> Option<usize> {
        match self {
            EchoEvent::Complete { addr, .. } | EchoEvent::Failed { addr } => Some(addr),
            _ => None,
        }
    }

    /// Whether `reply` is what is to be sent back: the same bytes, to the sender, on the same
    /// channel and with no flags, or in the same packet; and nothing for a message that has
    /// failed.
    pub open spec fn is_answered_by(self, reply: Option<EchoReply<'a>>) -> bool {
        match self {
            EchoEvent::Data { header, payload, sender } => reply == Some(
                EchoReply::Message {
                    payload,
                    channel_id: header.channel_id,
                    dest: sender,
                    flags: 0,
                },
            ),
            EchoEvent::Coalesced { header, payload, sender, .. } => reply == Some(
                EchoReply::Packet { header: header.raw(), payload, dest: sender },
            ),
            EchoEvent::Complete { payload, channel_id, sender, .. } => reply == Some(
                EchoReply::Message { payload, channel_id, dest: sender, flags: 0 },
            ),
            EchoEvent::Failed { .. } => reply is None,
        }
    }
}

/// How many messages a server has received, and how many of them the transport has taken
/// back as echoes.
#[derive(Debug, Clone, Copy, PartialEq, Eq, Structural)]
pub struct EchoTally {
    pub received: u64,
    pub echoed: u64,
}

/// What a server that echoes has counted, and the buffers that it has handed out.
pub struct EchoBook {
    pub tally: EchoTally,
    pub buffers: AllocMap,
}

/// What an echo book holds, for its contracts.
#[verifier::ext_equal]
pub struct EchoState {
    pub received: u64,
    pub echoed: u64,
    pub kept: Map<usize, Vec<u8>>,
}

impl View for EchoBook {
    type V = EchoState;

    open spec fn view(&self) -> EchoState {
        EchoState {
            received: self.tally.received,
            echoed: self.tally.echoed,
            kept: self.buffers.kept(),
        }
    }
}

impl EchoState {
    /// After the receipt of what the transport has reported.
    pub open spec fn with_receipt(self, event: EchoEvent) -> EchoState {
        EchoState { received: self.received.wrapping_add(event.count()), ..self }
    }

    /// After the reply was tried, with what sending it returned, if it was sent: an echo
    /// counts if the transport took it, and the buffer is freed in any case.
    pub open spec fn settled(self, event: EchoEvent, code: Option<i32>) -> EchoState {
        EchoState {
            echoed: if code is Some && code->0 >= 0 {
                self.echoed.wrapping_add(event.count())
            } else {
                self.echoed
            },
            kept: match event.buffer() {
                Some(addr) => self.kept.remove(addr),
                None => self.kept,
            },
            ..self
        }
    }
}

impl EchoBook {
    /// Nothing has been counted or handed out.
    pub fn new() -> (r: EchoBook)
        ensures
            r@ == (EchoState { received: 0, echoed: 0, kept: Map::empty() }),
    {
        EchoBook { tally: EchoTally { received: 0, echoed: 0 }, buffers: AllocMap::new() }
    }

    /// Hands out a buffer of `max_size` zero bytes and gives its address, as
    /// [`alloc_buf`] does.
    pub fn allocate(&mut self, max_size: usize) -> (addr: usize)
        ensures
            addr != 0,
            final(self).tally == old(self).tally,
            final(self).buffers@ == old(self).buffers@.insert(addr, max_size as nat),
            final(self)@.kept.contains_key(addr),
            final(self)@.kept[addr]@ == Seq::new(max_size as nat, |i: int| 0u8),
            final(self)@.kept.remove(addr) == old(self)@.kept.remove(addr),
    {
        alloc_buf(&mut self.buffers, max_size)
    }

    /// Counts what the transport has reported and gives what is to be sent back.
    pub fn receive<'a>(&mut self, event: &EchoEvent<'a>) -> (r: Option<EchoReply<'a>>)
        ensures
            final(self)@ == old(self)@.with_receipt(*event),
            event.is_answered_by(r),
    {
        match event {
            EchoEvent::Data { header, payload, sender } => {
                self.tally.received = self.tally.received.wrapping_add(1);
                let (channel_id, dest, flags) = echo_route(header, *sender);
                Some(EchoReply::Message { payload, channel_id, dest, flags })
            },
            EchoEvent::Coalesced { header, payload, count, sender } => {
                self.tally.received = self.tally.received.wrapping_add(*count);
                Some(EchoReply::Packet { header: header.to_raw(), payload, dest: *sender })
            },
            EchoEvent::Complete { payload, channel_id, sender, .. } => {
                self.tally.received = self.tally.received.wrapping_add(1);
                Some(
                    EchoReply::Message {
                        payload,
                        channel_id: *channel_id,
                        dest: *sender,
                        flags: 0,
                    },
                )
            },
            EchoEvent::Failed { .. } => None,
        }
    }

    /// Counts the echo, if it was sent and the transport took it, and frees the buffer.
    pub fn settle(&mut self, event: &EchoEvent, code: Option<i32>)
        ensures
            final(self)@ == old(self)@.settled(*event, code),
    {
        let taken: bool = match code {
            Some(code) => is_accepted(code),
            None => false,
        };
        let count: u64 = match event {
            EchoEvent::Data { .. } | EchoEvent::Complete { .. } => 1,
            EchoEvent::Coalesced { count, .. } => *count,
            EchoEvent::Failed { .. } => 0,
        };
        if taken {
            self.tally.echoed = self.tally.echoed.wrapping_add(count);
        }
        match event {
            EchoEvent::Complete { addr, .. } | EchoEvent::Failed { addr } => {
                free_buf(&mut self.buffers, *addr);
            },
            _ => {},
        }
    }
}

/// One thing that happens to a server that echoes.
pub enum EchoStep<'a> {
    /// A buffer is handed out at an address.
    Allocate { addr: usize, buf: Vec<u8> },
    /// The transport reports something, and its reply was tried with this result.
    Report { event: EchoEvent<'a>, code: Option<i32> },
}

impl EchoState {
    /// After one thing has happened.
    pub open spec fn step(self, step: EchoStep) -> EchoState {
        match step {
            EchoStep::Allocate { addr, buf } => EchoState {
                kept: self.kept.insert(addr, buf),
                ..self
            },
            EchoStep::Report { event, code } => self.with_receipt(event).settled(event, code),
        }
    }
}

/// After a series of things.
pub open spec fn after_steps(state: EchoState, steps: Seq<EchoStep>) -> EchoState
    decreases steps.len(),
{
    if steps.len() == 0 {
        state
    } else {
        after_steps(state.step(steps[0]), steps.drop_first())
    }
}

/// How many messages have come in a series.
pub open spec fn messages(steps: Seq<EchoStep>) -> nat
    decreases steps.len(),
{
    if steps.len() == 0 {
        0
    } else {
        messages(steps.drop_first()) + match steps[0] {
            EchoStep::Report { event, .. } => event.count() as nat,
            _ => 0,
        }
    }
}

/// How many of the messages in a series the transport has taken back as echoes.
pub open spec fn taken_back(steps: Seq<EchoStep>) -> nat
    decreases steps.len(),
{
    if steps.len() == 0 {
        0
    } else {
        taken_back(steps.drop_first()) + match steps[0] {
            EchoStep::Report { event, code } if code is Some && code->0 >= 0 => event.count() as nat,
            _ => 0,
        }
    }
}

/// The transport takes back no more messages than have come.
proof fn lemma_taken_back(steps: Seq<EchoStep>)
    ensures
        taken_back(steps) <= messages(steps),
    decreases steps.len(),
{
    if steps.len() > 0 {
        lemma_taken_back(steps.drop_first());
    }
}

/// Every message that came is counted once as received, and once as echoed exactly where
/// the transport took its echo. A message that has failed counts as neither.
pub proof fn law_echoes_are_counted(state: EchoState, steps: Seq<EchoStep>)
    requires
        state.received + messages(steps) <= u64::MAX,
        state.echoed + messages(steps) <= u64::MAX,
    ensures
        after_steps(state, steps).received == state.received + messages(steps),
        after_steps(state, steps).echoed == state.echoed + taken_back(steps),
    decreases steps.len(),
{
    if steps.len() > 0 {
        lemma_taken_back(steps);
        law_echoes_are_counted(state.step(steps[0]), steps.drop_first());
    }
}

/// Whether a step hands out a buffer at `addr`.
pub open spec fn hands_out(step: EchoStep, addr: usize) -> bool {
    step matches EchoStep::Allocate { addr: a, .. } && a == addr
}

/// Whether a step reports that the transport is done with the buffer at `addr`.
pub open spec fn reports(step: EchoStep, addr: usize) -> bool {
    step matches EchoStep::Report { event, .. } && event.buffer() == Some(addr)
}

/// One for what holds, and zero for what does not.
pub open spec fn one_if(holds: bool) -> int {
    if holds {
        1
    } else {
        0
    }
}

/// How often a buffer is handed out at `addr` in a series.
pub open spec fn hand_outs(steps: Seq<EchoStep>, addr: usize) -> int
    decreases steps.len(),
{
    if steps.len() == 0 {
        0
    } else {
        hand_outs(steps.drop_first(), addr) + one_if(hands_out(steps[0], addr))
    }
}

/// How often a buffer is freed at `addr` in a series: a report frees one that is there.
pub open spec fn frees(state: EchoState, steps: Seq<EchoStep>, addr: usize) -> int
    decreases steps.len(),
{
    if steps.len() == 0 {
        0
    } else {
        frees(state.step(steps[0]), steps.drop_first(), addr) + one_if(
            reports(steps[0], addr) && state.kept.contains_key(addr),
        )
    }
}

/// Whether no buffer is handed out at `addr` while one is there.
pub open spec fn hands_out_afresh(state: EchoState, steps: Seq<EchoStep>, addr: usize) -> bool
    decreases steps.len(),
{
    steps.len() > 0 ==> {
        &&& hands_out(steps[0], addr) ==> !state.kept.contains_key(addr)
        &&& hands_out_afresh(state.step(steps[0]), steps.drop_first(), addr)
    }
}

/// Each buffer is freed exactly once or is still there: as often as buffers were handed out
/// at an address, that often they were freed, but for one that is there at the end.
pub proof fn law_buffers_are_freed_once(state: EchoState, steps: Seq<EchoStep>, addr: usize)
    requires
        hands_out_afresh(state, steps, addr),
    ensures
        one_if(state.kept.contains_key(addr)) + hand_outs(steps, addr) == frees(state, steps, addr)
            + one_if(after_steps(state, steps).kept.contains_key(addr)),
    decreases steps.len(),
{
    if steps.len() > 0 {
        law_buffers_are_freed_once(state.step(steps[0]), steps.drop_first(), addr);
    }
}

/// A buffer that the transport is not done with stays as it is.
pub proof fn law_unreported_buffers_stay(state: EchoState, steps: Seq<EchoStep>, addr: usize)
    requires
        forall|i: int|
            0 <= i < steps.len() ==> !hands_out(#[trigger] steps[i], addr) && !reports(
                steps[i],
                addr,
            ),
    ensures
        after_steps(state, steps).kept.contains_key(addr) == state.kept.contains_key(addr),
        state.kept.contains_key(addr) ==> after_steps(state, steps).kept[addr] == state.kept[addr],
    decreases steps.len(),
{
    if steps.len() > 0 {
        let rest = steps.drop_first();
        assert forall|i: int| 0 <= i < rest.len() implies !hands_out(#[trigger] rest[i], addr)
            && !reports(rest[i], addr) by {
            assert(rest[i] == steps[i + 1]);
        }
        assert(!hands_out(steps[0], addr) && !reports(steps[0], addr));
        law_unreported_buffers_stay(state.step(steps[0]), rest, addr);
    }
}

/// A report frees the buffer that it names, whether or not its echo was taken, and no other.
pub proof fn law_a_report_frees_its_buffer(
    state: EchoState,
    event: EchoEvent,
    code: Option<i32>,
    other: usize,
)
    ensures
        event.buffer() is Some ==> !state.with_receipt(event).settled(
            event,
            code,
        ).kept.contains_key(event.buffer()->0),
        event.buffer() != Some(other) ==> {
            let after = state.with_receipt(event).settled(event, code);
            &&& after.kept.contains_key(other) == state.kept.contains_key(other)
            &&& state.kept.contains_key(other) ==> after.kept[other] == state.kept[other]
        },
        event is Failed ==> state.with_receipt(event).settled(event, None).received
            == state.received && state.with_receipt(event).settled(event, None).echoed
            == state.echoed,
{
}

/// What is sent back. The bytes of a message and those of a message in fragments go back as they
/// are, to the one that sent them, on the channel on which they came and without flags; a packet
/// of several messages goes back whole, under its own header. Nothing is sent for a message that
/// has failed.
pub proof fn law_what_is_sent_back(event: EchoEvent, reply: Option<EchoReply>)
    requires
        event.is_answered_by(reply),
    ensures
        event matches EchoEvent::Data { header, payload, sender } ==> (reply matches Some(
            EchoReply::Message { payload: p, channel_id, dest, flags },
        ) && p@ == payload@ && channel_id == header.channel_id && dest == sender && flags == 0),
        event matches EchoEvent::Complete { payload, channel_id: c, sender, .. } ==> (
        reply matches Some(EchoReply::Message { payload: p, channel_id, dest, flags }) && p@
            == payload@ && channel_id == c && dest == sender && flags == 0),
        event matches EchoEvent::Coalesced { header, payload, sender, .. } ==> (
        reply matches Some(EchoReply::Packet { header: h, payload: p, dest }) && p@ == payload@
            && h.channel_id == header.channel_id && h.sequence == header.sequence && h
            == header.raw() && dest == sender),
        event is Failed ==> reply is None,
{
}

/// A message counts as received whether or not its echo is taken, and as echoed exactly where it
/// is; a packet counts with all its messages, and a message that has failed with none. The
/// receipt frees no buffer.
pub proof fn law_what_is_counted(state: EchoState, event: EchoEvent, code: Option<i32>)
    ensures
        ({
            let n: u64 = match event {
                EchoEvent::Coalesced { count, .. } => count,
                EchoEvent::Failed { .. } => 0,
                _ => 1,
            };
            let received = state.with_receipt(event);
            let settled = received.settled(event, code);
            &&& received.received == state.received.wrapping_add(n)
            &&& received.echoed == state.echoed && received.kept == state.kept
            &&& settled.received == received.received
            &&& (code matches Some(c) && c >= 0) ==> settled.echoed == state.echoed.wrapping_add(n)
            &&& !(code matches Some(c) && c >= 0) ==> settled.echoed == state.echoed
        }),
{
}

/// Which buffer a report is about: that of a message in fragments, complete or failed, and none
/// for any other.
pub proof fn law_which_buffer(event: EchoEvent, addr: usize)
    ensures
        event.buffer() == Some(addr) <==> {
            ||| (event matches EchoEvent::Complete { addr: a, .. } && a == addr)
            ||| event == (EchoEvent::Failed { addr })
        },
{
}

} // verus!

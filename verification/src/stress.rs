//! The stress test: many clients in one thread, each sending at a fixed rate.

use crate::error::is_accepted;
use crate::percent::rate_text;
#[allow(unused_imports)]
use crate::percent::{percent_tenths, tenths_text};
use crate::wire::{append_word, ByteOrder};
#[allow(unused_imports)]
use crate::wire::{law_word_is_read_back, word_at, word_bytes};
use vstd::prelude::*;

verus! {

/// How many clients are connected before progress is told.
pub const CONNECT_BATCH: usize = 50;

/// Microseconds in a second.
pub const MICROS_PER_SECOND: u64 = 1_000_000;

/// What a message of the stress test says.
#[derive(Debug, Clone, Copy, PartialEq, Eq, Structural)]
pub struct StressMsg {
    pub client_index: u32,
    pub sequence: u32,
}

impl StressMsg {
    /// The bytes of the message.
    pub open spec fn bytes(self, order: ByteOrder) -> Seq<u8> {
        word_bytes(self.client_index, order) + word_bytes(self.sequence, order)
    }

    /// The bytes of the message.
    pub fn encode(&self, order: ByteOrder) -> (r: Vec<u8>)
        ensures
            r@ == self.bytes(order),
    {
        let mut out: Vec<u8> = Vec::new();
        append_word(&mut out, self.client_index, order);
        append_word(&mut out, self.sequence, order);
        assert(out@ =~= self.bytes(order));
        out
    }
}

/// Different messages have different bytes: both numbers can be read back from them.
pub proof fn law_message_is_read_back(msg: StressMsg, order: ByteOrder)
    ensures
        word_at(msg.bytes(order), 0, order) == msg.client_index,
        word_at(msg.bytes(order), 4, order) == msg.sequence,
        msg.bytes(order).len() == 8,
{
    let first = word_bytes(msg.client_index, order);
    let second = word_bytes(msg.sequence, order);
    law_word_is_read_back(Seq::empty(), msg.client_index, second, order);
    assert(msg.bytes(order) =~= Seq::<u8>::empty() + first + second);
    law_word_is_read_back(first, msg.sequence, Seq::empty(), order);
    assert(msg.bytes(order) =~= first + second + Seq::<u8>::empty());
}

/// One where `x` is zero, and `x` otherwise.
pub open spec fn at_least_one(x: int) -> int {
    if x < 1 {
        1
    } else {
        x
    }
}

/// The time between two messages of a client, in microseconds.
pub fn send_interval_micros(rate_hz: u64) -> (r: u64)
    ensures
        r == MICROS_PER_SECOND as int / at_least_one(rate_hz as int),
{
    let rate: u64 = if rate_hz < 1 {
        1
    } else {
        rate_hz
    };
    MICROS_PER_SECOND / rate
}

/// How long after the start client number `index` of `clients` sends first: the clients
/// are spread evenly over the interval.
pub open spec fn stagger(interval: int, index: int, clients: int) -> int {
    interval * index / at_least_one(clients)
}

/// How long after the start a client sends first, in microseconds.
pub fn stagger_micros(interval: u64, index: u64, clients: u64) -> (r: u64)
    requires
        interval * index <= u64::MAX,
    ensures
        r == stagger(interval as int, index as int, clients as int),
{
    let count: u64 = if clients < 1 {
        1
    } else {
        clients
    };
    interval * index / count
}

/// All clients send first within one interval, and none before one with a lower number.
pub proof fn law_stagger(interval: int, index: int, next: int, clients: int)
    requires
        0 < interval,
        0 <= index <= next < clients,
    ensures
        0 <= stagger(interval, index, clients) <= stagger(interval, next, clients) < interval,
{
    let a = interval * index;
    let b = interval * next;
    assert(0 <= a <= b && b < interval * clients) by (nonlinear_arith)
        requires
            a == interval * index,
            b == interval * next,
            0 < interval,
            0 <= index <= next < clients,
    ;
    assert(0 <= a / clients <= b / clients && b / clients < interval) by (nonlinear_arith)
        requires
            0 <= a <= b,
            b < interval * clients,
            0 < clients,
            0 < interval,
    ;
}

/// The number of messages a second that all clients are to send.
pub fn target_rate(clients: u64, rate_hz: u64) -> (r: u64)
    requires
        clients * rate_hz <= u64::MAX,
    ensures
        r == clients * rate_hz,
{
    clients * rate_hz
}

/// The number of the client behind the last one of the batch that begins with `base`.
pub fn batch_end(base: usize, clients: usize) -> (r: usize)
    requires
        base + CONNECT_BATCH <= usize::MAX,
    ensures
        r == (if base + CONNECT_BATCH < clients {
            base + CONNECT_BATCH
        } else {
            clients as int
        }),
{
    let behind: usize = base + CONNECT_BATCH;
    if behind < clients {
        behind
    } else {
        clients
    }
}

/// Whether to tell how many clients are connected after the batch that begins with
/// `base`: always if asked to, after every second batch, and after the last.
pub fn progress_is_due(verbose: bool, base: usize, clients: usize) -> (r: bool)
    requires
        base + CONNECT_BATCH <= usize::MAX,
    ensures
        r == (verbose || (base + CONNECT_BATCH) % 100 == 0 || base + CONNECT_BATCH >= clients),
{
    verbose || (base + CONNECT_BATCH) % 100 == 0 || batch_end(base, clients) == clients
}

/// What became of the attempt to connect a client and to open its channel.
#[derive(Debug, Clone, Copy, PartialEq, Eq, Structural)]
pub enum Handshake {
    /// The transport refused to connect.
    Refused,
    /// The connection did not come to stand in time.
    TimedOut,
    /// What opening the channel returned.
    Channel(i32),
}

/// One client of the stress test.
#[derive(Debug, Clone, Copy, PartialEq, Eq, Structural)]
pub struct StressSlot {
    pub connected: bool,
    /// How many messages the transport has taken from this client.
    pub sent: u32,
    /// The client's channel, or -1 where it has none.
    pub channel_id: i32,
    /// When the client sends next, in nanoseconds since the start.
    pub next_send: u128,
}

impl StressSlot {
    /// A client that is not connected.
    pub open spec fn unconnected() -> StressSlot {
        StressSlot { connected: false, sent: 0, channel_id: (-1) as i32, next_send: 0 }
    }

    /// The client after its attempt to connect.
    pub open spec fn of_handshake(outcome: Handshake) -> StressSlot {
        match outcome {
            Handshake::Channel(id) if id >= 0 => StressSlot {
                connected: true,
                sent: 0,
                channel_id: id,
                next_send: 0,
            },
            _ => StressSlot::unconnected(),
        }
    }

    /// Whether it is time for the client to send.
    pub fn is_due(&self, now: u128) -> (r: bool)
        ensures
            r == (now >= self.next_send),
    {
        now >= self.next_send
    }

    /// The message that the client sends next, as client number `index`.
    pub open spec fn message(self, index: int) -> StressMsg {
        StressMsg { client_index: (index % 0x1_0000_0000) as u32, sequence: self.sent }
    }

    /// The number by which the transport knows the client's channel.
    pub open spec fn channel(self) -> u8 {
        (self.channel_id as int % 256) as u8
    }

    /// The client, to send next at the time `next_send`.
    pub open spec fn to_send_at(self, next_send: int) -> StressSlot {
        StressSlot { next_send: next_send as u128, ..self }
    }

    /// The client, with one more message counted as sent if the transport took it.
    pub open spec fn counted(self, code: i32) -> StressSlot {
        StressSlot {
            sent: (self.sent + if code >= 0 {
                1int
            } else {
                0
            }) as u32,
            ..self
        }
    }

    /// The client's turn at the time `now`. When it is time to send, the next time is set,
    /// whether or not the transport takes a message now, and the message to send is given
    /// if it does, with the channel.
    pub fn take_turn(&mut self, index: u64, now: u128, interval: u128, can_send: bool) -> (r:
        Option<(StressMsg, u8)>)
        requires
            now + interval <= u128::MAX,
        ensures
            *final(self) == (if now >= old(self).next_send {
                old(self).to_send_at(now + interval)
            } else {
                *old(self)
            }),
            r == (if now >= old(self).next_send && can_send {
                Some((old(self).message(index as int), old(self).channel()))
            } else {
                None
            }),
    {
        if now < self.next_send {
            return None;
        }
        self.next_send = now + interval;
        if !can_send {
            return None;
        }
        let msg = StressMsg { client_index: (index % 0x1_0000_0000) as u32, sequence: self.sent };
        let id: i64 = self.channel_id as i64 + 0x8000_0000;
        Some((msg, (id % 256) as u8))
    }

    /// Counts a message as sent, if the transport took it.
    pub fn record_sent(&mut self, code: i32) -> (accepted: bool)
        requires
            old(self).sent < u32::MAX,
        ensures
            accepted == (code >= 0),
            *final(self) == old(self).counted(code),
    {
        if is_accepted(code) {
            self.sent = self.sent + 1;
            true
        } else {
            false
        }
    }
}

/// How many of the first `k` clients are connected.
pub open spec fn connected_count(slots: Seq<StressSlot>, k: int) -> nat
    decreases k,
{
    if k <= 0 {
        0
    } else {
        connected_count(slots, k - 1) + if slots[k - 1].connected {
            1nat
        } else {
            0
        }
    }
}

/// The count of the first clients does not change when one more is added.
proof fn lemma_connected_count_push(slots: Seq<StressSlot>, slot: StressSlot, k: int)
    requires
        0 <= k <= slots.len(),
    ensures
        connected_count(slots.push(slot), k) == connected_count(slots, k),
        connected_count(slots, k) <= k,
    decreases k,
{
    if k > 0 {
        lemma_connected_count_push(slots, slot, k - 1);
    }
}

/// All clients whose connection was attempted.
#[derive(Debug)]
pub struct StressRoster {
    pub slots: Vec<StressSlot>,
    pub connect_ok: usize,
    pub connect_fail: usize,
}

impl StressRoster {
    /// Every attempt is counted once, as a success where the client is connected and as a
    /// failure where it is not.
    pub open spec fn wf(self) -> bool {
        &&& self.connect_ok == connected_count(self.slots@, self.slots@.len() as int)
        &&& self.connect_ok + self.connect_fail == self.slots@.len()
    }

    /// No client yet.
    pub fn new() -> (r: StressRoster)
        ensures
            r.wf(),
            r.slots@ == Seq::<StressSlot>::empty(),
    {
        StressRoster { slots: Vec::new(), connect_ok: 0, connect_fail: 0 }
    }

    /// Adds a client after its attempt to connect.
    pub fn admit_client(&mut self, outcome: Handshake)
        requires
            old(self).wf(),
            old(self).slots@.len() < usize::MAX,
        ensures
            final(self).wf(),
            final(self).slots@ == old(self).slots@.push(StressSlot::of_handshake(outcome)),
    {
        let slot = match outcome {
            Handshake::Channel(id) => if id >= 0 {
                StressSlot { connected: true, sent: 0, channel_id: id, next_send: 0 }
            } else {
                StressSlot { connected: false, sent: 0, channel_id: -1, next_send: 0 }
            },
            _ => StressSlot { connected: false, sent: 0, channel_id: -1, next_send: 0 },
        };
        proof {
            lemma_connected_count_push(self.slots@, slot, self.slots@.len() as int);
        }
        if slot.connected {
            self.connect_ok = self.connect_ok + 1;
        } else {
            self.connect_fail = self.connect_fail + 1;
        }
        self.slots.push(slot);
    }
}

/// Counts of connected clients agree where the same clients are connected.
pub proof fn lemma_connected_count_same(a: Seq<StressSlot>, b: Seq<StressSlot>, k: int)
    requires
        0 <= k <= a.len(),
        a.len() == b.len(),
        forall|i: int| 0 <= i < a.len() ==> (#[trigger] a[i]).connected == b[i].connected,
    ensures
        connected_count(a, k) == connected_count(b, k),
    decreases k,
{
    if k > 0 {
        lemma_connected_count_same(a, b, k - 1);
        assert(a[k - 1].connected == b[k - 1].connected);
    }
}

/// The clients, to send first spread over one interval, which is given in microseconds.
pub open spec fn scheduled(slots: Seq<StressSlot>, interval: int) -> Seq<StressSlot> {
    slots.map(
        |i: int, slot: StressSlot|
            slot.to_send_at(1000 * stagger(interval, i, slots.len() as int)),
    )
}

impl StressRoster {
    /// Sets when each client sends first: the clients are spread over one interval, which
    /// is given in microseconds.
    pub fn schedule(&mut self, interval: u64)
        requires
            old(self).wf(),
            interval * old(self).slots@.len() <= u64::MAX,
        ensures
            final(self).wf(),
            final(self).connect_ok == old(self).connect_ok,
            final(self).connect_fail == old(self).connect_fail,
            final(self).slots@ == scheduled(old(self).slots@, interval as int),
    {
        let clients: usize = self.slots.len();
        let ghost before = self.slots@;
        let mut k: usize = 0;
        while k < clients
            invariant
                k <= clients,
                clients == before.len(),
                interval * clients <= u64::MAX,
                self.slots@.len() == clients,
                self.connect_ok == old(self).connect_ok,
                self.connect_fail == old(self).connect_fail,
                forall|i: int| k <= i < clients ==> self.slots@[i] == before[i],
                forall|i: int|
                    0 <= i < k ==> #[trigger] self.slots@[i] == before[i].to_send_at(
                        1000 * stagger(interval as int, i, clients as int),
                    ),
            decreases clients - k,
        {
            assert(interval * k <= interval * clients) by (nonlinear_arith)
                requires
                    k <= clients,
            ;
            let first: u64 = stagger_micros(interval, k as u64, clients as u64);
            let mut slot: StressSlot = self.slots[k];
            slot.next_send = 1000 * (first as u128);
            self.slots.set(k, slot);
            k += 1;
        }
        proof {
            assert forall|i: int| 0 <= i < before.len() implies (#[trigger] before[i]).connected
                == self.slots@[i].connected by {}
            lemma_connected_count_same(before, self.slots@, before.len() as int);
        }
    }
}

/// What one client has done in the stress test.
#[derive(Debug, Clone, Copy, PartialEq, Eq, Structural)]
pub struct ClientFigures {
    /// Whether the client was connected when the test began.
    pub connected: bool,
    /// Whether it is connected still.
    pub alive: bool,
    pub sent: u32,
    pub echoes: u32,
    pub losses: u32,
}

/// What all clients have done together.
#[derive(Debug, Clone, Copy, PartialEq, Eq, Structural)]
pub struct StressTotals {
    pub sent: u64,
    pub echoes: u64,
    pub losses: u64,
    pub still_connected: usize,
}

/// The sum of `part` over those of the first `k` clients that were connected.
pub open spec fn sum_over(
    figures: Seq<ClientFigures>,
    part: spec_fn(ClientFigures) -> nat,
    k: int,
) -> nat
    decreases k,
{
    if k <= 0 {
        0
    } else {
        sum_over(figures, part, k - 1) + if figures[k - 1].connected {
            part(figures[k - 1])
        } else {
            0
        }
    }
}

/// The sum over fewer clients is not larger.
proof fn lemma_sum_monotone(
    figures: Seq<ClientFigures>,
    part: spec_fn(ClientFigures) -> nat,
    j: int,
    k: int,
)
    requires
        0 <= j <= k,
    ensures
        sum_over(figures, part, j) <= sum_over(figures, part, k),
    decreases k - j,
{
    if j < k {
        lemma_sum_monotone(figures, part, j, k - 1);
    }
}

/// A count of clients is not above their number.
proof fn lemma_alive_bound(figures: Seq<ClientFigures>, k: int)
    requires
        0 <= k,
    ensures
        sum_over(figures, alive_part(), k) <= k,
    decreases k,
{
    if k > 0 {
        lemma_alive_bound(figures, k - 1);
    }
}

/// The messages that a client has sent.
pub open spec fn sent_part() -> spec_fn(ClientFigures) -> nat {
    |f: ClientFigures| f.sent as nat
}

/// The echoes that a client has received.
pub open spec fn echoes_part() -> spec_fn(ClientFigures) -> nat {
    |f: ClientFigures| f.echoes as nat
}

/// The losses that a client was told of.
pub open spec fn losses_part() -> spec_fn(ClientFigures) -> nat {
    |f: ClientFigures| f.losses as nat
}

/// One for a client that is connected still.
pub open spec fn alive_part() -> spec_fn(ClientFigures) -> nat {
    |f: ClientFigures|
        if f.alive {
            1nat
        } else {
            0
        }
}

/// Adds up what the clients that were connected have done.
pub fn stress_totals(figures: &Vec<ClientFigures>) -> (r: StressTotals)
    requires
        sum_over(figures@, sent_part(), figures@.len() as int) <= u64::MAX,
        sum_over(figures@, echoes_part(), figures@.len() as int) <= u64::MAX,
        sum_over(figures@, losses_part(), figures@.len() as int) <= u64::MAX,
    ensures
        r.sent == sum_over(figures@, sent_part(), figures@.len() as int),
        r.echoes == sum_over(figures@, echoes_part(), figures@.len() as int),
        r.losses == sum_over(figures@, losses_part(), figures@.len() as int),
        r.still_connected == sum_over(figures@, alive_part(), figures@.len() as int),
{
    let mut totals = StressTotals { sent: 0, echoes: 0, losses: 0, still_connected: 0 };
    let mut k: usize = 0;
    while k < figures.len()
        invariant
            k <= figures@.len(),
            sum_over(figures@, sent_part(), figures@.len() as int) <= u64::MAX,
            sum_over(figures@, echoes_part(), figures@.len() as int) <= u64::MAX,
            sum_over(figures@, losses_part(), figures@.len() as int) <= u64::MAX,
            totals.sent == sum_over(figures@, sent_part(), k as int),
            totals.echoes == sum_over(figures@, echoes_part(), k as int),
            totals.losses == sum_over(figures@, losses_part(), k as int),
            totals.still_connected == sum_over(figures@, alive_part(), k as int),
        decreases figures@.len() - k,
    {
        let f: ClientFigures = figures[k];
        proof {
            lemma_sum_monotone(figures@, sent_part(), k + 1, figures@.len() as int);
            lemma_sum_monotone(figures@, echoes_part(), k + 1, figures@.len() as int);
            lemma_sum_monotone(figures@, losses_part(), k + 1, figures@.len() as int);
            lemma_alive_bound(figures@, k + 1);
        }
        if f.connected {
            totals.sent = totals.sent + f.sent as u64;
            totals.echoes = totals.echoes + f.echoes as u64;
            totals.losses = totals.losses + f.losses as u64;
            if f.alive {
                totals.still_connected = totals.still_connected + 1;
            }
        }
        k += 1;
    }
    totals
}

/// The average number of messages a second, of which the first is always begun.
pub fn average_rate(total: u64, elapsed_secs: u64) -> (r: u64)
    ensures
        r == total as int / at_least_one(elapsed_secs as int),
{
    let secs: u64 = if elapsed_secs < 1 {
        1
    } else {
        elapsed_secs
    };
    total / secs
}

/// The share of the sent messages that were not lost, as a percentage; none where none was
/// sent.
pub fn delivery_rate(sent: u64, losses: u64) -> (r: String)
    requires
        sent == 0 || losses <= sent,
    ensures
        sent == 0 ==> r@ == "0.0%"@,
        sent > 0 ==> r@ == tenths_text(
            percent_tenths((sent - losses) as nat, sent as nat) as nat,
        ).push('%'),
{
    if sent == 0 {
        rate_text(0, 0)
    } else {
        rate_text(sent - losses, sent)
    }
}

/// The interval is the longest whole number of microseconds at which a client keeps its rate:
/// as many intervals as messages fit into a second, and with one microsecond more they do not.
/// A rate of zero counts as one message a second.
pub proof fn law_interval(rate: int)
    requires
        0 <= rate,
    ensures
        ({
            let interval = MICROS_PER_SECOND as int / at_least_one(rate);
            &&& rate == 0 ==> interval == 1_000_000
            &&& rate > 0 ==> interval * rate <= 1_000_000 && 1_000_000 < (interval + 1) * rate
        }),
{
    if rate > 0 {
        let interval: int = 1_000_000int / rate;
        assert(interval * rate <= 1_000_000 && 1_000_000 < (interval + 1) * rate)
            by (nonlinear_arith)
            requires
                interval == 1_000_000int / rate,
                rate > 0,
        ;
    }
}

/// The clients are spread evenly: client number `index` sends first after its share of the
/// interval, to the microsecond below.
pub proof fn law_even_spread(interval: int, index: int, clients: int)
    requires
        0 <= interval,
        0 <= index < clients,
    ensures
        stagger(interval, index, clients) * clients <= interval * index,
        interval * index < (stagger(interval, index, clients) + 1) * clients,
        stagger(interval, 0, clients) == 0,
{
    let a = interval * index;
    assert((a / clients) * clients <= a && a < (a / clients + 1) * clients) by (nonlinear_arith)
        requires
            clients > 0,
    ;
    assert(interval * 0 == 0) by (nonlinear_arith);
}

/// A schedule sets each client's first time, to its share of the interval in nanoseconds, and
/// changes nothing else of it.
pub proof fn law_schedule(slots: Seq<StressSlot>, interval: int, i: int)
    requires
        0 <= i < slots.len(),
        0 <= interval * slots.len() <= u64::MAX,
        0 <= interval,
    ensures
        ({
            let after = scheduled(slots, interval);
            &&& after.len() == slots.len()
            &&& after[i].next_send == 1000 * (interval * i / slots.len() as int)
            &&& after[i].connected == slots[i].connected
            &&& after[i].sent == slots[i].sent
            &&& after[i].channel_id == slots[i].channel_id
        }),
{
    let n = slots.len() as int;
    assert(0 <= interval * i / n <= u64::MAX) by (nonlinear_arith)
        requires
            0 <= interval * n <= u64::MAX,
            0 <= interval,
            0 <= i < n,
    ;
}

/// A client is connected exactly where its channel was opened, and then has that channel; any
/// other has none. Before the test no client has sent anything or has a time to send at.
pub proof fn law_handshake(outcome: Handshake)
    ensures
        ({
            let slot = StressSlot::of_handshake(outcome);
            &&& slot.connected <==> (outcome matches Handshake::Channel(id) && id >= 0)
            &&& slot.connected ==> outcome == Handshake::Channel(slot.channel_id)
            &&& !slot.connected ==> slot.channel_id == -1
            &&& slot.sent == 0 && slot.next_send == 0
        }),
{
}

/// A message tells the client's number and how many messages the transport has taken from it
/// before; it goes to the client's channel. A message counts exactly where the transport took
/// it, and counting it or setting the next time changes nothing else of the client.
pub proof fn law_messages_of_a_client(slot: StressSlot, index: u32, code: i32, time: u128)
    requires
        slot.sent < u32::MAX,
    ensures
        slot.message(index as int).client_index == index,
        slot.message(index as int).sequence == slot.sent,
        0 <= slot.channel_id < 256 ==> slot.channel() == slot.channel_id,
        exists|k: int| slot.channel_id == #[trigger] (256 * k) + slot.channel(),
        code >= 0 ==> slot.counted(code).sent == slot.sent + 1,
        code < 0 ==> slot.counted(code).sent == slot.sent,
        slot.counted(code) == (StressSlot { sent: slot.counted(code).sent, ..slot }),
        slot.to_send_at(time as int) == (StressSlot { next_send: time, ..slot }),
{
    let id = slot.channel_id as int;
    assert(id == 256 * (id / 256) + slot.channel());
}

/// The count of connected clients is the number of those that are connected.
pub proof fn law_count_of_connected(slots: Seq<StressSlot>, slot: StressSlot)
    ensures
        connected_count(Seq::<StressSlot>::empty(), 0) == 0,
        connected_count(slots.push(slot), slots.len() as int + 1) == connected_count(
            slots,
            slots.len() as int,
        ) + if slot.connected {
            1nat
        } else {
            0
        },
        connected_count(slots, slots.len() as int) == 0 <==> forall|i: int|
            0 <= i < slots.len() ==> !(#[trigger] slots[i]).connected,
        connected_count(slots, slots.len() as int) <= slots.len(),
{
    lemma_connected_count_push(slots, slot, slots.len() as int);
    lemma_none_connected(slots, slots.len() as int);
}

/// The count is zero exactly where no client is connected.
proof fn lemma_none_connected(slots: Seq<StressSlot>, k: int)
    requires
        0 <= k <= slots.len(),
    ensures
        connected_count(slots, k) == 0 <==> forall|i: int|
            0 <= i < k ==> !(#[trigger] slots[i]).connected,
    decreases k,
{
    if k > 0 {
        lemma_none_connected(slots, k - 1);
    }
}

/// A client's figures add to the totals exactly where the client was connected: its messages,
/// its echoes and its losses, and one where it is connected still.
pub proof fn law_totals(figures: Seq<ClientFigures>, f: ClientFigures)
    ensures
        ({
            let n = figures.len() as int;
            let more = figures.push(f);
            let share: int = if f.connected {
                1
            } else {
                0
            };
            &&& sum_over(more, sent_part(), n + 1) == sum_over(figures, sent_part(), n) + share
                * f.sent
            &&& sum_over(more, echoes_part(), n + 1) == sum_over(figures, echoes_part(), n) + share
                * f.echoes
            &&& sum_over(more, losses_part(), n + 1) == sum_over(figures, losses_part(), n) + share
                * f.losses
            &&& sum_over(more, alive_part(), n + 1) == sum_over(figures, alive_part(), n) + if f.alive {
                share
            } else {
                0
            }
            &&& sum_over(Seq::empty(), sent_part(), 0) == 0
            &&& sum_over(Seq::empty(), echoes_part(), 0) == 0
            &&& sum_over(Seq::empty(), losses_part(), 0) == 0
            &&& sum_over(Seq::empty(), alive_part(), 0) == 0
        }),
{
    let n = figures.len() as int;
    lemma_sum_push(figures, f, sent_part(), n);
    lemma_sum_push(figures, f, echoes_part(), n);
    lemma_sum_push(figures, f, losses_part(), n);
    lemma_sum_push(figures, f, alive_part(), n);
    assert(0 * f.sent == 0 && 1 * f.sent == f.sent) by (nonlinear_arith);
    assert(0 * f.echoes == 0 && 1 * f.echoes == f.echoes) by (nonlinear_arith);
    assert(0 * f.losses == 0 && 1 * f.losses == f.losses) by (nonlinear_arith);
}

/// The sum over the first clients does not change when one more is added.
proof fn lemma_sum_push(
    figures: Seq<ClientFigures>,
    f: ClientFigures,
    part: spec_fn(ClientFigures) -> nat,
    k: int,
)
    requires
        0 <= k <= figures.len(),
    ensures
        sum_over(figures.push(f), part, k) == sum_over(figures, part, k),
    decreases k,
{
    if k > 0 {
        lemma_sum_push(figures, f, part, k - 1);
    }
}

} // verus!

//! The soak test: six streams of numbered messages that the server echoes.
//!
//! The streams are the three channels (unreliable, reliable, ordered), each with short
//! messages and with messages that are long enough to be fragmented.

use crate::error::is_accepted;
use crate::wire::{append_word, read_word, ByteOrder};
#[allow(unused_imports)]
use crate::wire::{law_word_is_read_back, word_at, word_bytes};
use vstd::prelude::*;

verus! {

/// The channel on which messages may be lost and reordered.
pub const CH_UNRELIABLE: u8 = 1;

/// The channel on which every message arrives.
pub const CH_RELIABLE: u8 = 2;

/// The channel on which every message arrives in order.
pub const CH_ORDERED: u8 = 3;

/// The number of streams.
pub const NUM_STREAMS: usize = 6;

/// The number of bytes in a short message, which is also the least that a message has.
pub const SIMPLE_SIZE: usize = 9;

/// The number of bytes in a message that is long enough to be fragmented.
pub const FRAG_SIZE: usize = 2500;

/// The channel of a stream: short messages first, then long ones.
pub open spec fn channel_of(stream: int) -> int {
    CH_UNRELIABLE + stream % 3
}

/// Whether a stream has long messages.
pub open spec fn is_fragmented(stream: int) -> bool {
    stream >= 3
}

/// The number of bytes in a message of a stream.
pub open spec fn size_of_message(stream: int) -> nat {
    if is_fragmented(stream) {
        FRAG_SIZE as nat
    } else {
        SIMPLE_SIZE as nat
    }
}

/// The channel of a stream.
pub fn stream_channel(stream: usize) -> (r: u8)
    requires
        stream < NUM_STREAMS,
    ensures
        r == channel_of(stream as int),
{
    CH_UNRELIABLE + (stream % 3) as u8
}

/// Whether a stream has long messages.
pub fn stream_is_fragmented(stream: usize) -> (r: bool)
    ensures
        r == is_fragmented(stream as int),
{
    stream >= 3
}

/// The name of a stream.
pub fn stream_name(stream: usize) -> (r: &'static str)
    requires
        stream < NUM_STREAMS,
    ensures
        stream == 0 ==> r@ == "simple-unreliable"@,
        stream == 1 ==> r@ == "simple-reliable"@,
        stream == 2 ==> r@ == "simple-ordered"@,
        stream == 3 ==> r@ == "frag-unreliable"@,
        stream == 4 ==> r@ == "frag-reliable"@,
        stream == 5 ==> r@ == "frag-ordered"@,
{
    match stream {
        0 => "simple-unreliable",
        1 => "simple-reliable",
        2 => "simple-ordered",
        3 => "frag-unreliable",
        4 => "frag-reliable",
        _ => "frag-ordered",
    }
}

/// What a message of the soak test says in its first bytes.
#[derive(Debug, Clone, Copy, PartialEq, Eq, Structural)]
pub struct SoakMsg {
    pub msg_id: u32,
    pub total_expected: u32,
    pub stream_idx: u8,
}

impl SoakMsg {
    /// The bytes of the message, without what fills a long one.
    pub open spec fn bytes(self, order: ByteOrder) -> Seq<u8> {
        word_bytes(self.msg_id, order) + word_bytes(self.total_expected, order) + seq![self.stream_idx]
    }

    /// The message that stands at the start of `bytes`, if there are enough of them.
    pub open spec fn of_bytes(bytes: Seq<u8>, order: ByteOrder) -> Option<SoakMsg> {
        if bytes.len() >= SIMPLE_SIZE {
            Some(
                SoakMsg {
                    msg_id: word_at(bytes, 0, order),
                    total_expected: word_at(bytes, 4, order),
                    stream_idx: bytes[8],
                },
            )
        } else {
            None
        }
    }

    /// The bytes of the message, without what fills a long one.
    pub fn encode(&self, order: ByteOrder) -> (r: Vec<u8>)
        ensures
            r@ == self.bytes(order),
    {
        let mut out: Vec<u8> = Vec::new();
        append_word(&mut out, self.msg_id, order);
        append_word(&mut out, self.total_expected, order);
        out.push(self.stream_idx);
        assert(out@ =~= self.bytes(order));
        out
    }

    /// Reads the message at the start of `bytes`, if there are enough of them.
    pub fn decode(bytes: &[u8], order: ByteOrder) -> (r: Option<SoakMsg>)
        ensures
            r == SoakMsg::of_bytes(bytes@, order),
    {
        if bytes.len() >= SIMPLE_SIZE {
            Some(
                SoakMsg {
                    msg_id: read_word(bytes, 0, order),
                    total_expected: read_word(bytes, 4, order),
                    stream_idx: bytes[8],
                },
            )
        } else {
            None
        }
    }
}

/// The bytes of message number `msg_id` of a stream; what fills a long one are the low
/// bytes of the indices.
pub open spec fn payload_bytes(stream: int, msg_id: u32, order: ByteOrder) -> Seq<u8> {
    let head = SoakMsg { msg_id, total_expected: 0, stream_idx: stream as u8 }.bytes(order);
    Seq::new(
        size_of_message(stream),
        |i: int|
            if i < SIMPLE_SIZE {
                head[i]
            } else {
                (i % 256) as u8
            },
    )
}

/// The bytes of message number `msg_id` of a stream.
pub fn soak_payload(stream: usize, msg_id: u32, order: ByteOrder) -> (r: Vec<u8>)
    requires
        stream < NUM_STREAMS,
    ensures
        r@ == payload_bytes(stream as int, msg_id, order),
{
    let msg = SoakMsg { msg_id, total_expected: 0, stream_idx: stream as u8 };
    let mut out: Vec<u8> = msg.encode(order);
    let size: usize = if stream_is_fragmented(stream) {
        FRAG_SIZE
    } else {
        SIMPLE_SIZE
    };
    let mut i: usize = SIMPLE_SIZE;
    while i < size
        invariant
            SIMPLE_SIZE <= i <= size,
            size == size_of_message(stream as int),
            out@.len() == i,
            stream < NUM_STREAMS,
            forall|j: int| 0 <= j < i ==> out@[j] == payload_bytes(stream as int, msg_id, order)[j],
        decreases size - i,
    {
        out.push((i % 256) as u8);
        i += 1;
    }
    assert(out@ =~= payload_bytes(stream as int, msg_id, order));
    out
}

/// A message that is sent on a stream is recognized in its echo: its number and its
/// stream are read back, on short and on long streams.
pub proof fn law_payload_is_read_back(stream: int, msg_id: u32, order: ByteOrder)
    requires
        0 <= stream < NUM_STREAMS,
    ensures
        SoakMsg::of_bytes(payload_bytes(stream, msg_id, order), order) == Some(
            SoakMsg { msg_id, total_expected: 0, stream_idx: stream as u8 },
        ),
{
    let msg = SoakMsg { msg_id, total_expected: 0, stream_idx: stream as u8 };
    law_message_is_read_back(
        msg,
        payload_bytes(stream, msg_id, order).skip(SIMPLE_SIZE as int),
        order,
    );
    assert(payload_bytes(stream, msg_id, order) =~= msg.bytes(order) + payload_bytes(stream, msg_id, order).skip(
        SIMPLE_SIZE as int,
    ));
}

/// A message is read back from its bytes, whatever follows them.
pub proof fn law_message_is_read_back(msg: SoakMsg, behind: Seq<u8>, order: ByteOrder)
    ensures
        SoakMsg::of_bytes(msg.bytes(order) + behind, order) == Some(msg),
{
    let all = msg.bytes(order) + behind;
    let second = word_bytes(msg.total_expected, order) + seq![msg.stream_idx] + behind;
    law_word_is_read_back(Seq::empty(), msg.msg_id, second, order);
    assert(all =~= Seq::<u8>::empty() + word_bytes(msg.msg_id, order) + second);
    law_word_is_read_back(
        word_bytes(msg.msg_id, order),
        msg.total_expected,
        seq![msg.stream_idx] + behind,
        order,
    );
    assert(all =~= word_bytes(msg.msg_id, order) + word_bytes(msg.total_expected, order) + (
    seq![msg.stream_idx] + behind));
}

/// What is counted of a stream.
#[derive(Debug, Clone, Copy, PartialEq, Eq, Structural)]
pub struct StreamStats {
    pub sent: u64,
    pub echoes: u64,
    /// The number of the last message that was echoed, on an ordered stream.
    pub last_echo_id: u32,
    /// How often an echo did not come in order, on an ordered stream.
    pub violations: u64,
}

impl StreamStats {
    /// Nothing has been counted.
    pub open spec fn zero() -> StreamStats {
        StreamStats { sent: 0, echoes: 0, last_echo_id: 0, violations: 0 }
    }

    /// After the echo of message number `msg_id`.
    pub open spec fn echoed(self, msg_id: u32, ordered: bool) -> StreamStats {
        let late = ordered && msg_id <= self.last_echo_id && self.last_echo_id > 0;
        StreamStats {
            sent: self.sent,
            echoes: self.echoes.wrapping_add(1),
            last_echo_id: if ordered {
                msg_id
            } else {
                self.last_echo_id
            },
            violations: if late {
                self.violations.wrapping_add(1)
            } else {
                self.violations
            },
        }
    }

    /// Counts the echo of message number `msg_id`.
    pub fn record_echo(&mut self, msg_id: u32, ordered: bool)
        ensures
            *final(self) == old(self).echoed(msg_id, ordered),
    {
        self.echoes = self.echoes.wrapping_add(1);
        if ordered {
            let prev: u32 = self.last_echo_id;
            self.last_echo_id = msg_id;
            if msg_id <= prev && prev > 0 {
                self.violations = self.violations.wrapping_add(1);
            }
        }
    }
}

/// The counts of an ordered stream after the echoes of `ids`, from none.
pub open spec fn ordered_run(ids: Seq<u32>) -> StreamStats
    decreases ids.len(),
{
    if ids.len() == 0 {
        StreamStats::zero()
    } else {
        ordered_run(ids.drop_last()).echoed(ids.last(), true)
    }
}

/// How often a number is not above the one before it, where that one is not zero.
pub open spec fn steps_back(ids: Seq<u32>) -> nat
    decreases ids.len(),
{
    if ids.len() <= 1 {
        0
    } else {
        let before = ids[ids.len() - 2];
        steps_back(ids.drop_last()) + if ids.last() <= before && before > 0 {
            1nat
        } else {
            0
        }
    }
}

/// On an ordered stream every echo is counted, and a violation is counted exactly for
/// each echo whose number is not above that of the echo before it.
pub proof fn law_order_violations(ids: Seq<u32>)
    requires
        ids.len() <= u64::MAX,
    ensures
        ordered_run(ids).echoes == ids.len(),
        ordered_run(ids).violations == steps_back(ids),
        ids.len() > 0 ==> ordered_run(ids).last_echo_id == ids.last(),
        steps_back(ids) <= ids.len(),
    decreases ids.len(),
{
    if ids.len() > 0 {
        law_order_violations(ids.drop_last());
    }
}

/// Echoes that come in ascending order violate nothing.
pub proof fn law_ascending_echoes_pass(ids: Seq<u32>)
    requires
        ids.len() <= u64::MAX,
        forall|i: int, j: int| 0 <= i < j < ids.len() ==> ids[i] < ids[j],
    ensures
        ordered_run(ids).violations == 0,
    decreases ids.len(),
{
    law_order_violations(ids);
    if ids.len() > 1 {
        law_order_violations(ids.drop_last());
        law_ascending_echoes_pass(ids.drop_last());
    }
}

/// What is counted of all streams.
#[derive(Debug)]
pub struct SoakBoard {
    pub streams: Vec<StreamStats>,
}

/// The counts of all streams after the receipt of an echo with these bytes. Bytes that
/// are no message of a stream change nothing.
pub open spec fn after_echo(
    streams: Seq<StreamStats>,
    payload: Seq<u8>,
    order: ByteOrder,
) -> Seq<StreamStats> {
    match SoakMsg::of_bytes(payload, order) {
        Some(msg) if msg.stream_idx < NUM_STREAMS => {
            let idx = msg.stream_idx as int;
            streams.update(idx, streams[idx].echoed(msg.msg_id, channel_of(idx) == CH_ORDERED))
        },
        _ => streams,
    }
}

/// The sum of the echoes of the first `k` streams.
pub open spec fn echo_sum(streams: Seq<StreamStats>, k: int) -> int
    decreases k,
{
    if k <= 0 {
        0
    } else {
        echo_sum(streams, k - 1) + streams[k - 1].echoes
    }
}

/// The sum of fewer streams is not larger.
proof fn lemma_echo_sum_monotone(streams: Seq<StreamStats>, j: int, k: int)
    requires
        0 <= j <= k,
    ensures
        0 <= echo_sum(streams, j) <= echo_sum(streams, k),
    decreases k,
{
    if k > 0 {
        if j < k {
            lemma_echo_sum_monotone(streams, j, k - 1);
        } else {
            lemma_echo_sum_monotone(streams, j - 1, k - 1);
        }
    }
}

impl SoakBoard {
    /// There are counts for each stream, and for no others.
    pub open spec fn wf(self) -> bool {
        self.streams@.len() == NUM_STREAMS
    }

    /// Whether every message of the reliable and ordered streams was echoed, streams on
    /// which none was sent aside.
    pub open spec fn all_delivered(self) -> bool {
        forall|i: int|
            #![trigger self.streams@[i]]
            0 <= i < NUM_STREAMS && channel_of(i) != CH_UNRELIABLE && self.streams@[i].sent > 0
                ==> self.streams@[i].echoes == self.streams@[i].sent
    }

    /// Nothing has been counted.
    pub fn new() -> (r: SoakBoard)
        ensures
            r.wf(),
            forall|i: int| 0 <= i < NUM_STREAMS ==> r.streams@[i] == StreamStats::zero(),
    {
        let zero = StreamStats { sent: 0, echoes: 0, last_echo_id: 0, violations: 0 };
        SoakBoard { streams: vec![zero, zero, zero, zero, zero, zero] }
    }

    /// Counts an echo.
    pub fn record_echo(&mut self, payload: &[u8], order: ByteOrder)
        requires
            old(self).wf(),
        ensures
            final(self).wf(),
            final(self).streams@ == after_echo(old(self).streams@, payload@, order),
    {
        match SoakMsg::decode(payload, order) {
            Some(msg) => {
                let idx: usize = msg.stream_idx as usize;
                if idx < NUM_STREAMS {
                    let mut stats: StreamStats = self.streams[idx];
                    stats.record_echo(msg.msg_id, stream_channel(idx) == CH_ORDERED);
                    self.streams.set(idx, stats);
                }
            },
            None => {},
        }
        assert(self.streams@ =~= after_echo(old(self).streams@, payload@, order));
    }

    /// Counts a message as sent on `stream`, if the transport took it.
    pub fn record_sent(&mut self, stream: usize, code: i32) -> (accepted: bool)
        requires
            old(self).wf(),
            stream < NUM_STREAMS,
        ensures
            final(self).wf(),
            accepted == (code >= 0),
            !accepted ==> final(self).streams@ == old(self).streams@,
            accepted ==> final(self).streams@ == old(self).streams@.update(
                stream as int,
                (StreamStats {
                    sent: old(self).streams@[stream as int].sent.wrapping_add(1),
                    ..old(self).streams@[stream as int]
                }),
            ),
    {
        if is_accepted(code) {
            let mut stats: StreamStats = self.streams[stream];
            stats.sent = stats.sent.wrapping_add(1);
            self.streams.set(stream, stats);
            true
        } else {
            false
        }
    }

    /// The number of echoes on all streams.
    pub fn total_echoes(&self) -> (r: u64)
        requires
            self.wf(),
            echo_sum(self.streams@, NUM_STREAMS as int) <= u64::MAX,
        ensures
            r == echo_sum(self.streams@, NUM_STREAMS as int),
    {
        let mut sum: u64 = 0;
        let mut k: usize = 0;
        while k < NUM_STREAMS
            invariant
                self.wf(),
                k <= NUM_STREAMS,
                sum == echo_sum(self.streams@, k as int),
                echo_sum(self.streams@, NUM_STREAMS as int) <= u64::MAX,
            decreases NUM_STREAMS - k,
        {
            proof {
                lemma_echo_sum_monotone(self.streams@, k + 1, NUM_STREAMS as int);
            }
            sum = sum + self.streams[k].echoes;
            k += 1;
        }
        sum
    }

    /// Whether the soak test has passed.
    pub fn has_passed(&self) -> (r: bool)
        requires
            self.wf(),
        ensures
            r == self.all_delivered(),
    {
        let mut k: usize = 0;
        while k < NUM_STREAMS
            invariant
                self.wf(),
                k <= NUM_STREAMS,
                forall|i: int|
                    #![trigger self.streams@[i]]
                    0 <= i < k && channel_of(i) != CH_UNRELIABLE && self.streams@[i].sent > 0
                        ==> self.streams@[i].echoes == self.streams@[i].sent,
            decreases NUM_STREAMS - k,
        {
            let stats: StreamStats = self.streams[k];
            if stream_channel(k) != CH_UNRELIABLE && stats.sent > 0 && stats.echoes != stats.sent {
                assert(self.streams@[k as int] == stats);
                return false;
            }
            k += 1;
        }
        true
    }
}

/// The echo of a message that was sent on a stream is counted for that stream, and
/// changes no other.
pub proof fn law_echo_counts_for_its_stream(
    streams: Seq<StreamStats>,
    stream: int,
    msg_id: u32,
    order: ByteOrder,
)
    requires
        streams.len() == NUM_STREAMS,
        0 <= stream < NUM_STREAMS,
    ensures
        after_echo(streams, payload_bytes(stream, msg_id, order), order) == streams.update(
            stream,
            streams[stream].echoed(msg_id, channel_of(stream) == CH_ORDERED),
        ),
{
    law_payload_is_read_back(stream, msg_id, order);
}

/// Whether the messages of a stream were delivered.
#[derive(Debug, Clone, Copy, PartialEq, Eq, Structural)]
pub enum Delivery {
    /// None was sent.
    Skip,
    Pass,
    /// This many were not echoed.
    Fail(u64),
}

/// Judges the delivery of a stream.
pub fn delivery(sent: u64, echoes: u64) -> (r: Delivery)
    requires
        sent == 0 || echoes <= sent,
    ensures
        sent == 0 ==> r is Skip,
        sent > 0 && echoes == sent ==> r is Pass,
        sent > 0 && echoes < sent ==> r == Delivery::Fail((sent - echoes) as u64),
{
    if sent == 0 {
        Delivery::Skip
    } else if echoes == sent {
        Delivery::Pass
    } else {
        Delivery::Fail(sent - echoes)
    }
}

/// Whether the echoes of an ordered stream came in order.
#[derive(Debug, Clone, Copy, PartialEq, Eq, Structural)]
pub enum EchoOrder {
    Pass,
    /// This many did not.
    Warn(u64),
}

/// Judges the order of a stream's echoes.
pub fn echo_order(violations: u64) -> (r: EchoOrder)
    ensures
        violations == 0 ==> r is Pass,
        violations > 0 ==> r == EchoOrder::Warn(violations),
{
    if violations == 0 {
        EchoOrder::Pass
    } else {
        EchoOrder::Warn(violations)
    }
}

/// The soak test passes exactly where no reliable or ordered stream fails.
pub proof fn law_verdict(board: SoakBoard)
    requires
        board.wf(),
    ensures
        board.all_delivered() <==> {
            &&& stream_delivered(board.streams@[1])
            &&& stream_delivered(board.streams@[2])
            &&& stream_delivered(board.streams@[4])
            &&& stream_delivered(board.streams@[5])
        },
{
    assert(channel_of(0) == CH_UNRELIABLE && channel_of(3) == CH_UNRELIABLE);
    if board.all_delivered() {
        assert(stream_delivered(board.streams@[1]));
        assert(stream_delivered(board.streams@[2]));
        assert(stream_delivered(board.streams@[4]));
        assert(stream_delivered(board.streams@[5]));
    }
}

/// Whether a stream has not failed: nothing was sent on it, or all of it was echoed.
pub open spec fn stream_delivered(stats: StreamStats) -> bool {
    stats.sent == 0 || stats.echoes == stats.sent
}

/// The longest time that echoes are waited for, in nanoseconds: 15 s.
pub const DRAIN_LIMIT_NANOS: u128 = 15_000_000_000;

/// Whether to stop waiting for echoes: no new one has come, or the time is up.
pub fn drain_is_done(echoes: u64, echoes_before: u64, elapsed_nanos: u128) -> (r: bool)
    ensures
        r == (echoes == echoes_before || elapsed_nanos > DRAIN_LIMIT_NANOS),
{
    echoes == echoes_before || elapsed_nanos > DRAIN_LIMIT_NANOS
}

/// Every echo of a stream is counted, whatever its number and whether or not the stream is
/// ordered, and counting it changes nothing that was sent. On an ordered stream its number is
/// kept, and it is a violation exactly where it is not above the last one and that one is not
/// zero; on another stream neither is touched.
pub proof fn law_every_echo_is_counted(stats: StreamStats, msg_id: u32, ordered: bool)
    ensures
        ({
            let after = stats.echoed(msg_id, ordered);
            let late = stats.last_echo_id > 0 && msg_id <= stats.last_echo_id;
            &&& after.echoes == stats.echoes.wrapping_add(1)
            &&& after.sent == stats.sent
            &&& !ordered ==> after.last_echo_id == stats.last_echo_id && after.violations
                == stats.violations
            &&& ordered ==> after.last_echo_id == msg_id
            &&& ordered && late ==> after.violations == stats.violations.wrapping_add(1)
            &&& ordered && !late ==> after.violations == stats.violations
        }),
{
}

/// The counts of a stream after the echoes of `ids`.
pub open spec fn after_echoes(stats: StreamStats, ids: Seq<u32>, ordered: bool) -> StreamStats
    decreases ids.len(),
{
    if ids.len() == 0 {
        stats
    } else {
        after_echoes(stats, ids.drop_last(), ordered).echoed(ids.last(), ordered)
    }
}

/// Over any series of echoes on a stream, ordered or not, with gaps or without, the count rises
/// by the number of echoes. On a stream that is not ordered there are no violations.
pub proof fn law_echoes_add_up(stats: StreamStats, ids: Seq<u32>, ordered: bool)
    requires
        stats.echoes + ids.len() <= u64::MAX,
    ensures
        after_echoes(stats, ids, ordered).echoes == stats.echoes + ids.len(),
        after_echoes(stats, ids, ordered).sent == stats.sent,
        !ordered ==> after_echoes(stats, ids, ordered).violations == stats.violations,
        !ordered ==> after_echoes(stats, ids, ordered).last_echo_id == stats.last_echo_id,
    decreases ids.len(),
{
    if ids.len() > 0 {
        law_echoes_add_up(stats, ids.drop_last(), ordered);
    }
}

/// The streams go over the channels 1, 2 and 3, the first three with short messages of nine
/// bytes and the last three with long ones of 2500.
pub proof fn law_streams(stream: int)
    requires
        0 <= stream < 6,
    ensures
        NUM_STREAMS == 6,
        stream == 0 || stream == 3 ==> channel_of(stream) == 1,
        stream == 1 || stream == 4 ==> channel_of(stream) == 2,
        stream == 2 || stream == 5 ==> channel_of(stream) == 3,
        stream <= 2 ==> !is_fragmented(stream) && size_of_message(stream) == 9,
        stream >= 3 ==> is_fragmented(stream) && size_of_message(stream) == 2500,
{
}

/// A message has the size of its stream; its first bytes are its number, four zeros and its
/// stream, and every byte behind is its own index, taken modulo 256.
pub proof fn law_payload(stream: int, msg_id: u32, order: ByteOrder)
    requires
        0 <= stream < 6,
    ensures
        ({
            let bytes = payload_bytes(stream, msg_id, order);
            &&& bytes.len() == if stream < 3 {
                9nat
            } else {
                2500
            }
            &&& bytes.subrange(0, 4) == word_bytes(msg_id, order)
            &&& bytes[4] == 0 && bytes[5] == 0 && bytes[6] == 0 && bytes[7] == 0
            &&& bytes[8] == stream
            &&& forall|i: int| 9 <= i < bytes.len() ==> #[trigger] bytes[i] == i % 256
        }),
{
    let head = SoakMsg { msg_id, total_expected: 0, stream_idx: stream as u8 }.bytes(order);
    let bytes = payload_bytes(stream, msg_id, order);
    assert(head =~= word_bytes(msg_id, order) + word_bytes(0, order) + seq![stream as u8]);
    assert(bytes.subrange(0, 4) =~= word_bytes(msg_id, order));
    assert forall|i: int| 9 <= i < bytes.len() implies #[trigger] bytes[i] == i % 256 by {
        assert(0 <= i % 256 < 256);
    }
}

/// Bytes that are received count for the stream that their ninth byte names, with the number in
/// their first four, and for no other; bytes that are too few or name no stream count for none.
pub proof fn law_what_an_echo_counts_for(
    streams: Seq<StreamStats>,
    payload: Seq<u8>,
    order: ByteOrder,
    other: int,
)
    requires
        streams.len() == 6,
        0 <= other < 6,
    ensures
        ({
            let after = after_echo(streams, payload, order);
            let known = payload.len() >= 9 && payload[8] < 6;
            &&& after.len() == 6
            &&& known && other == payload[8] ==> after[other] == streams[other].echoed(
                word_at(payload, 0, order),
                other % 3 == 2,
            )
            &&& !known || other != payload[8] ==> after[other] == streams[other]
        }),
{
}

/// The total of echoes is that of the six streams together.
pub proof fn law_total_of_echoes(streams: Seq<StreamStats>)
    requires
        streams.len() == 6,
    ensures
        echo_sum(streams, 6) == streams[0].echoes + streams[1].echoes + streams[2].echoes
            + streams[3].echoes + streams[4].echoes + streams[5].echoes,
{
    reveal_with_fuel(echo_sum, 7);
}

/// The soak test passes exactly where, on each of the two reliable and the two ordered streams,
/// as many echoes have come as messages were sent, or none was sent.
pub proof fn law_when_the_test_passes(board: SoakBoard)
    requires
        board.wf(),
    ensures
        ({
            let s = board.streams@;
            board.all_delivered() <==> {
                &&& s[1].sent == 0 || s[1].echoes == s[1].sent
                &&& s[2].sent == 0 || s[2].echoes == s[2].sent
                &&& s[4].sent == 0 || s[4].echoes == s[4].sent
                &&& s[5].sent == 0 || s[5].echoes == s[5].sent
            }
        }),
{
    law_verdict(board);
}

/// A message is read wherever there are the nine bytes of one, and never from fewer.
pub proof fn law_short_messages(bytes: Seq<u8>, order: ByteOrder)
    ensures
        SoakMsg::of_bytes(bytes, order) is Some <==> bytes.len() >= 9,
{
}

/// Before the first echo a stream has counted nothing: its counts after some echoes are those of
/// the echoes alone.
pub proof fn law_counts_begin_at_zero(ids: Seq<u32>, ordered: bool)
    requires
        ids.len() <= u64::MAX,
    ensures
        ({
            let stats = after_echoes(StreamStats::zero(), ids, ordered);
            &&& stats.echoes == ids.len()
            &&& stats.sent == 0
            &&& !ordered ==> stats.violations == 0 && stats.last_echo_id == 0
            &&& ids.len() == 0 ==> stats.violations == 0 && stats.last_echo_id == 0
        }),
{
    law_echoes_add_up(StreamStats::zero(), ids, ordered);
}

} // verus!

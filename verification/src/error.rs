//! Errors of the transport and the reading of its return codes.

use crate::text::append_signed;
#[allow(unused_imports)]
use crate::text::{law_signed_number_is_read_back, signed_decimal};
use vstd::prelude::*;
#[allow(unused_imports)]
use vstd::std_specs::convert::FromSpec;

verus! {

/// What went wrong in a call of the transport.
#[derive(Debug, Clone, Copy, PartialEq, Eq, Structural)]
pub enum EntError {
    Socket,
    NotConnected,
    ConnectionDenied,
    ConnectionTimeout,
    Backpressured,
    PayloadTooLarge,
    InvalidArgument,
    ChannelInUse,
    ChannelNotFound,
    ChannelSlotsFull,
    ChannelRejected,
    ChannelTimeout,
    PoolFull,
    DuplicatePacket,
    AlreadyStarted,
    /// A code that the transport does not name.
    Unknown(i32),
}

/// The result of a call of the transport.
pub type EntResult<T> = Result<T, EntError>;

/// The numbers by which the transport reports each of its named errors, as its
/// C header assigns them.
#[derive(Debug, Clone, Copy, PartialEq, Eq, Structural)]
pub struct ErrorCodes {
    pub socket: i32,
    pub not_connected: i32,
    pub connection_denied: i32,
    pub connection_timeout: i32,
    pub backpressured: i32,
    pub payload_too_large: i32,
    pub invalid_argument: i32,
    pub channel_in_use: i32,
    pub channel_not_found: i32,
    pub channel_slots_full: i32,
    pub channel_rejected: i32,
    pub channel_timeout: i32,
    pub pool_full: i32,
    pub duplicate_packet: i32,
    pub already_started: i32,
}

impl ErrorCodes {
    /// The named errors with their numbers, in the order in which they are tried.
    pub open spec fn table(self) -> Seq<(i32, EntError)> {
        seq![
            (self.socket, EntError::Socket),
            (self.not_connected, EntError::NotConnected),
            (self.connection_denied, EntError::ConnectionDenied),
            (self.connection_timeout, EntError::ConnectionTimeout),
            (self.backpressured, EntError::Backpressured),
            (self.payload_too_large, EntError::PayloadTooLarge),
            (self.invalid_argument, EntError::InvalidArgument),
            (self.channel_in_use, EntError::ChannelInUse),
            (self.channel_not_found, EntError::ChannelNotFound),
            (self.channel_slots_full, EntError::ChannelSlotsFull),
            (self.channel_rejected, EntError::ChannelRejected),
            (self.channel_timeout, EntError::ChannelTimeout),
            (self.pool_full, EntError::PoolFull),
            (self.duplicate_packet, EntError::DuplicatePacket),
            (self.already_started, EntError::AlreadyStarted),
        ]
    }

    /// No two named errors have the same number.
    pub open spec fn distinct(self) -> bool {
        forall|i: int, j: int|
            #![trigger self.table()[i], self.table()[j]]
            0 <= i < j < self.table().len() ==> self.table()[i].0 != self.table()[j].0
    }

    /// The number by which the error `e` is reported.
    pub open spec fn number_of(self, e: EntError) -> i32 {
        match e {
            EntError::Socket => self.socket,
            EntError::NotConnected => self.not_connected,
            EntError::ConnectionDenied => self.connection_denied,
            EntError::ConnectionTimeout => self.connection_timeout,
            EntError::Backpressured => self.backpressured,
            EntError::PayloadTooLarge => self.payload_too_large,
            EntError::InvalidArgument => self.invalid_argument,
            EntError::ChannelInUse => self.channel_in_use,
            EntError::ChannelNotFound => self.channel_not_found,
            EntError::ChannelSlotsFull => self.channel_slots_full,
            EntError::ChannelRejected => self.channel_rejected,
            EntError::ChannelTimeout => self.channel_timeout,
            EntError::PoolFull => self.pool_full,
            EntError::DuplicatePacket => self.duplicate_packet,
            EntError::AlreadyStarted => self.already_started,
            EntError::Unknown(code) => code,
        }
    }

    /// Whether `code` is the number of a named error.
    pub open spec fn names(self, code: i32) -> bool {
        exists|i: int| 0 <= i < self.table().len() && (#[trigger] self.table()[i]).0 == code
    }
}

/// The first entry of `table` with the number `code`, or the unknown error.
pub open spec fn first_match(table: Seq<(i32, EntError)>, code: i32) -> EntError
    decreases table.len(),
{
    if table.len() == 0 {
        EntError::Unknown(code)
    } else if table[0].0 == code {
        table[0].1
    } else {
        first_match(table.drop_first(), code)
    }
}

/// `first_match` gives the entry at an index before which no entry has the number.
proof fn lemma_first_match_at(table: Seq<(i32, EntError)>, code: i32, i: int)
    requires
        0 <= i < table.len(),
        table[i].0 == code,
        forall|j: int| 0 <= j < i ==> (#[trigger] table[j]).0 != code,
    ensures
        first_match(table, code) == table[i].1,
    decreases table.len(),
{
    if i > 0 {
        let rest = table.drop_first();
        assert forall|j: int| 0 <= j < i - 1 implies (#[trigger] rest[j]).0 != code by {
            assert(table[j + 1].0 != code);
        }
        assert(table[0].0 != code);
        lemma_first_match_at(rest, code, i - 1);
    }
}

/// Where no entry has the number, `first_match` gives the unknown error.
proof fn lemma_first_match_none(table: Seq<(i32, EntError)>, code: i32)
    requires
        forall|j: int| 0 <= j < table.len() ==> (#[trigger] table[j]).0 != code,
    ensures
        first_match(table, code) == EntError::Unknown(code),
    decreases table.len(),
{
    if table.len() > 0 {
        let rest = table.drop_first();
        assert forall|j: int| 0 <= j < rest.len() implies (#[trigger] rest[j]).0 != code by {
            assert(table[j + 1].0 != code);
        }
        assert(table[0].0 != code);
        lemma_first_match_none(rest, code);
    }
}

impl EntError {
    /// The error that the transport reports by the number `code`.
    pub fn from_code(code: i32, codes: &ErrorCodes) -> (e: EntError)
        ensures
            e == first_match(codes.table(), code),
    {
        reveal_with_fuel(first_match, 16);
        if code == codes.socket {
            EntError::Socket
        } else if code == codes.not_connected {
            EntError::NotConnected
        } else if code == codes.connection_denied {
            EntError::ConnectionDenied
        } else if code == codes.connection_timeout {
            EntError::ConnectionTimeout
        } else if code == codes.backpressured {
            EntError::Backpressured
        } else if code == codes.payload_too_large {
            EntError::PayloadTooLarge
        } else if code == codes.invalid_argument {
            EntError::InvalidArgument
        } else if code == codes.channel_in_use {
            EntError::ChannelInUse
        } else if code == codes.channel_not_found {
            EntError::ChannelNotFound
        } else if code == codes.channel_slots_full {
            EntError::ChannelSlotsFull
        } else if code == codes.channel_rejected {
            EntError::ChannelRejected
        } else if code == codes.channel_timeout {
            EntError::ChannelTimeout
        } else if code == codes.pool_full {
            EntError::PoolFull
        } else if code == codes.duplicate_packet {
            EntError::DuplicatePacket
        } else if code == codes.already_started {
            EntError::AlreadyStarted
        } else {
            EntError::Unknown(code)
        }
    }

    /// The wording of the error.
    pub open spec fn wording(self) -> Seq<char> {
        match self {
            EntError::Socket => "socket error"@,
            EntError::NotConnected => "not connected"@,
            EntError::ConnectionDenied => "connection denied"@,
            EntError::ConnectionTimeout => "connection timeout"@,
            EntError::Backpressured => "backpressured"@,
            EntError::PayloadTooLarge => "payload too large"@,
            EntError::InvalidArgument => "invalid argument"@,
            EntError::ChannelInUse => "channel in use"@,
            EntError::ChannelNotFound => "channel not found"@,
            EntError::ChannelSlotsFull => "channel slots full"@,
            EntError::ChannelRejected => "channel rejected"@,
            EntError::ChannelTimeout => "channel timeout"@,
            EntError::PoolFull => "pool full"@,
            EntError::DuplicatePacket => "duplicate packet"@,
            EntError::AlreadyStarted => "already started"@,
            EntError::Unknown(code) => "unknown error code: "@ + signed_decimal(code as int),
        }
    }

    /// The error in words.
    pub fn message(&self) -> (r: String)
        ensures
            r@ == self.wording(),
    {
        match *self {
            EntError::Socket => String::from_str("socket error"),
            EntError::NotConnected => String::from_str("not connected"),
            EntError::ConnectionDenied => String::from_str("connection denied"),
            EntError::ConnectionTimeout => String::from_str("connection timeout"),
            EntError::Backpressured => String::from_str("backpressured"),
            EntError::PayloadTooLarge => String::from_str("payload too large"),
            EntError::InvalidArgument => String::from_str("invalid argument"),
            EntError::ChannelInUse => String::from_str("channel in use"),
            EntError::ChannelNotFound => String::from_str("channel not found"),
            EntError::ChannelSlotsFull => String::from_str("channel slots full"),
            EntError::ChannelRejected => String::from_str("channel rejected"),
            EntError::ChannelTimeout => String::from_str("channel timeout"),
            EntError::PoolFull => String::from_str("pool full"),
            EntError::DuplicatePacket => String::from_str("duplicate packet"),
            EntError::AlreadyStarted => String::from_str("already started"),
            EntError::Unknown(code) => {
                let mut out = String::from_str("unknown error code: ");
                append_signed(&mut out, code);
                out
            },
        }
    }
}

impl From<(i32, ErrorCodes)> for EntError {
    /// The error that the transport reports by a number, with the numbers of its errors.
    fn from(reported: (i32, ErrorCodes)) -> (e: Self) {
        EntError::from_code(reported.0, &reported.1)
    }
}

impl vstd::std_specs::convert::FromSpecImpl<(i32, ErrorCodes)> for EntError {
    open spec fn obeys_from_spec() -> bool {
        true
    }

    open spec fn from_spec(reported: (i32, ErrorCodes)) -> Self {
        first_match(reported.1.table(), reported.0)
    }
}

/// Reads a return value of the transport: a value of zero or more is a success,
/// often a number of bytes, and a negative value is the number of an error.
pub fn check_err(code: i32, codes: &ErrorCodes) -> (r: EntResult<i32>)
    ensures
        code >= 0 ==> r == Ok::<i32, EntError>(code),
        code < 0 ==> r == Err::<i32, EntError>(first_match(codes.table(), code)),
{
    if code >= 0 {
        Ok(code)
    } else {
        Err(EntError::from((code, *codes)))
    }
}

/// Reads the return value of a call that reports success alone.
pub fn check_done(code: i32, codes: &ErrorCodes) -> (r: EntResult<()>)
    ensures
        code >= 0 ==> r == Ok::<(), EntError>(()),
        code < 0 ==> r == Err::<(), EntError>(first_match(codes.table(), code)),
{
    match check_err(code, codes) {
        Ok(_) => Ok(()),
        Err(e) => Err(e),
    }
}

/// Reads the return value of a send: a success gives the number `msg_id` that the
/// transport assigned to the message.
pub fn check_sent(code: i32, msg_id: u32, codes: &ErrorCodes) -> (r: EntResult<u32>)
    ensures
        code >= 0 ==> r == Ok::<u32, EntError>(msg_id),
        code < 0 ==> r == Err::<u32, EntError>(first_match(codes.table(), code)),
{
    match check_err(code, codes) {
        Ok(_) => Ok(msg_id),
        Err(e) => Err(e),
    }
}

/// Whether the transport took what it was given: a return value of zero or more.
pub fn is_accepted(code: i32) -> (r: bool)
    ensures
        r == (code >= 0),
{
    code >= 0
}

/// Reads a truth value of the transport: anything but zero holds.
pub fn truth_of(value: i32) -> (r: bool)
    ensures
        r == (value != 0),
{
    value != 0
}

/// Writes a truth value for the transport.
pub fn number_of_truth(value: bool) -> (r: i32)
    ensures
        r == (if value { 1int } else { 0 }),
{
    if value {
        1
    } else {
        0
    }
}

/// No two codes are read as one error: the errors differ in name, or in the number of an
/// error without a name.
pub proof fn law_codes_are_not_merged(codes: ErrorCodes, a: i32, b: i32)
    requires
        a != b,
    ensures
        first_match(codes.table(), a) != first_match(codes.table(), b),
        EntError::from_spec((a, codes)) != EntError::from_spec((b, codes)),
{
    law_code_is_kept(codes, a);
    law_code_is_kept(codes, b);
}

/// The number of the error that a code is read as is that code.
pub proof fn law_code_is_kept(codes: ErrorCodes, code: i32)
    ensures
        codes.number_of(first_match(codes.table(), code)) == code,
{
    let t = codes.table();
    assert forall|i: int| 0 <= i < t.len() implies codes.number_of((#[trigger] t[i]).1)
        == t[i].0 by {}
    lemma_first_match_is_entry(t, code);
}

/// `first_match` gives an entry with the number, or the unknown error.
proof fn lemma_first_match_is_entry(table: Seq<(i32, EntError)>, code: i32)
    ensures
        first_match(table, code) == EntError::Unknown(code) || exists|i: int|
            0 <= i < table.len() && (#[trigger] table[i]).0 == code && table[i].1 == first_match(
                table,
                code,
            ),
    decreases table.len(),
{
    if table.len() > 0 && table[0].0 != code {
        let rest = table.drop_first();
        lemma_first_match_is_entry(rest, code);
        if first_match(rest, code) != EntError::Unknown(code) {
            let i = choose|i: int|
                0 <= i < rest.len() && (#[trigger] rest[i]).0 == code && rest[i].1 == first_match(
                    rest,
                    code,
                );
            assert(table[i + 1] == rest[i]);
        }
    }
}

/// With distinct numbers, every named error is read back from its number, and so
/// is every unknown error whose number no named error has.
pub proof fn law_error_is_read_back(codes: ErrorCodes, e: EntError)
    requires
        codes.distinct(),
        e matches EntError::Unknown(code) ==> !codes.names(code),
    ensures
        first_match(codes.table(), codes.number_of(e)) == e,
{
    let t = codes.table();
    match e {
        EntError::Unknown(code) => {
            assert forall|j: int| 0 <= j < t.len() implies (#[trigger] t[j]).0 != code by {}
            lemma_first_match_none(t, code);
        },
        _ => {
            let i: int = match e {
                EntError::Socket => 0,
                EntError::NotConnected => 1,
                EntError::ConnectionDenied => 2,
                EntError::ConnectionTimeout => 3,
                EntError::Backpressured => 4,
                EntError::PayloadTooLarge => 5,
                EntError::InvalidArgument => 6,
                EntError::ChannelInUse => 7,
                EntError::ChannelNotFound => 8,
                EntError::ChannelSlotsFull => 9,
                EntError::ChannelRejected => 10,
                EntError::ChannelTimeout => 11,
                EntError::PoolFull => 12,
                EntError::DuplicatePacket => 13,
                EntError::AlreadyStarted => 14,
                EntError::Unknown(_) => 0,
            };
            assert(t[i] == (codes.number_of(e), e));
            assert forall|j: int| 0 <= j < i implies (#[trigger] t[j]).0 != t[i].0 by {}
            lemma_first_match_at(t, t[i].0, i);
        },
    }
}

/// Where no two named errors share a number, each named error is read from its own.
pub proof fn law_named_errors(codes: ErrorCodes)
    requires
        codes.distinct(),
    ensures
        EntError::from_spec((codes.socket, codes)) == EntError::Socket,
        EntError::from_spec((codes.not_connected, codes)) == EntError::NotConnected,
        EntError::from_spec((codes.connection_denied, codes)) == EntError::ConnectionDenied,
        EntError::from_spec((codes.connection_timeout, codes)) == EntError::ConnectionTimeout,
        EntError::from_spec((codes.backpressured, codes)) == EntError::Backpressured,
        EntError::from_spec((codes.payload_too_large, codes)) == EntError::PayloadTooLarge,
        EntError::from_spec((codes.invalid_argument, codes)) == EntError::InvalidArgument,
        EntError::from_spec((codes.channel_in_use, codes)) == EntError::ChannelInUse,
        EntError::from_spec((codes.channel_not_found, codes)) == EntError::ChannelNotFound,
        EntError::from_spec((codes.channel_slots_full, codes)) == EntError::ChannelSlotsFull,
        EntError::from_spec((codes.channel_rejected, codes)) == EntError::ChannelRejected,
        EntError::from_spec((codes.channel_timeout, codes)) == EntError::ChannelTimeout,
        EntError::from_spec((codes.pool_full, codes)) == EntError::PoolFull,
        EntError::from_spec((codes.duplicate_packet, codes)) == EntError::DuplicatePacket,
        EntError::from_spec((codes.already_started, codes)) == EntError::AlreadyStarted,
{
    law_error_is_read_back(codes, EntError::Socket);
    law_error_is_read_back(codes, EntError::NotConnected);
    law_error_is_read_back(codes, EntError::ConnectionDenied);
    law_error_is_read_back(codes, EntError::ConnectionTimeout);
    law_error_is_read_back(codes, EntError::Backpressured);
    law_error_is_read_back(codes, EntError::PayloadTooLarge);
    law_error_is_read_back(codes, EntError::InvalidArgument);
    law_error_is_read_back(codes, EntError::ChannelInUse);
    law_error_is_read_back(codes, EntError::ChannelNotFound);
    law_error_is_read_back(codes, EntError::ChannelSlotsFull);
    law_error_is_read_back(codes, EntError::ChannelRejected);
    law_error_is_read_back(codes, EntError::ChannelTimeout);
    law_error_is_read_back(codes, EntError::PoolFull);
    law_error_is_read_back(codes, EntError::DuplicatePacket);
    law_error_is_read_back(codes, EntError::AlreadyStarted);
}

/// A code is read as an unknown error, with its own number, exactly where it is the number of
/// no named error.
pub proof fn law_unknown_codes(codes: ErrorCodes, code: i32)
    ensures
        EntError::from_spec((code, codes)) is Unknown <==> {
            &&& code != codes.socket && code != codes.not_connected
            &&& code != codes.connection_denied && code != codes.connection_timeout
            &&& code != codes.backpressured && code != codes.payload_too_large
            &&& code != codes.invalid_argument && code != codes.channel_in_use
            &&& code != codes.channel_not_found && code != codes.channel_slots_full
            &&& code != codes.channel_rejected && code != codes.channel_timeout
            &&& code != codes.pool_full && code != codes.duplicate_packet
            &&& code != codes.already_started
        },
        EntError::from_spec((code, codes)) matches EntError::Unknown(number) ==> number == code,
{
    law_code_is_kept(codes, code);
    reveal_with_fuel(first_match, 16);
}

/// An unknown error tells its number, with its sign, behind words of its own.
pub proof fn law_wording_of_unknown_errors(code: i32)
    ensures
        EntError::Unknown(code).wording() == "unknown error code: "@ + signed_decimal(code as int),
{
}

/// What tells the wordings apart: their lengths, and a character where two are equally long.
proof fn lemma_shape_of_wordings()
    ensures
        "socket error"@.len() == 12,
        "not connected"@.len() == 13 && "not connected"@[0] == 'n',
        "connection denied"@.len() == 17 && "connection denied"@[1] == 'o',
        "connection timeout"@.len() == 18 && "connection timeout"@[1] == 'o',
        "backpressured"@.len() == 13 && "backpressured"@[0] == 'b',
        "payload too large"@.len() == 17 && "payload too large"@[1] == 'a',
        "invalid argument"@.len() == 16 && "invalid argument"@[0] == 'i',
        "channel in use"@.len() == 14,
        "channel not found"@.len() == 17 && "channel not found"@[1] == 'h',
        "channel slots full"@.len() == 18 && "channel slots full"@[1] == 'h',
        "channel rejected"@.len() == 16 && "channel rejected"@[0] == 'c',
        "channel timeout"@.len() == 15 && "channel timeout"@[0] == 'c',
        "pool full"@.len() == 9,
        "duplicate packet"@.len() == 16 && "duplicate packet"@[0] == 'd',
        "already started"@.len() == 15 && "already started"@[0] == 'a',
        "unknown error code: "@.len() == 20,
{
    reveal_strlit("socket error");
    reveal_strlit("not connected");
    reveal_strlit("connection denied");
    reveal_strlit("connection timeout");
    reveal_strlit("backpressured");
    reveal_strlit("payload too large");
    reveal_strlit("invalid argument");
    reveal_strlit("channel in use");
    reveal_strlit("channel not found");
    reveal_strlit("channel slots full");
    reveal_strlit("channel rejected");
    reveal_strlit("channel timeout");
    reveal_strlit("pool full");
    reveal_strlit("duplicate packet");
    reveal_strlit("already started");
    reveal_strlit("unknown error code: ");
}

/// The words tell which error it is: two errors with the same wording are the same, and so are
/// the codes of two unknown ones.
pub proof fn law_wordings_differ(a: EntError, b: EntError)
    requires
        a.wording() == b.wording(),
    ensures
        a == b,
{
    lemma_shape_of_wordings();
    if let EntError::Unknown(x) = a {
        if let EntError::Unknown(y) = b {
            assert(a.wording().skip(20) =~= signed_decimal(x as int));
            assert(b.wording().skip(20) =~= signed_decimal(y as int));
            law_signed_number_is_read_back(x as int);
            law_signed_number_is_read_back(y as int);
        }
    }
}

/// The words of each named error.
pub proof fn law_wordings()
    ensures
        EntError::Socket.wording() == "socket error"@,
        EntError::NotConnected.wording() == "not connected"@,
        EntError::ConnectionDenied.wording() == "connection denied"@,
        EntError::ConnectionTimeout.wording() == "connection timeout"@,
        EntError::Backpressured.wording() == "backpressured"@,
        EntError::PayloadTooLarge.wording() == "payload too large"@,
        EntError::InvalidArgument.wording() == "invalid argument"@,
        EntError::ChannelInUse.wording() == "channel in use"@,
        EntError::ChannelNotFound.wording() == "channel not found"@,
        EntError::ChannelSlotsFull.wording() == "channel slots full"@,
        EntError::ChannelRejected.wording() == "channel rejected"@,
        EntError::ChannelTimeout.wording() == "channel timeout"@,
        EntError::PoolFull.wording() == "pool full"@,
        EntError::DuplicatePacket.wording() == "duplicate packet"@,
        EntError::AlreadyStarted.wording() == "already started"@,
{
}

} // verus!

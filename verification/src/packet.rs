//! Addresses, packet headers and connection figures.
//!
//! Each `Raw` type holds, field by field, what the C structure of the transport
//! holds; the other types are what callers of this library see.

use vstd::prelude::*;
#[allow(unused_imports)]
use vstd::std_specs::convert::FromSpec;

verus! {

/// The fields of the C structure `ent_endpoint`.
#[derive(Debug, Clone, Copy, PartialEq, Eq, Structural)]
pub struct RawEndpoint {
    pub address: u32,
    pub port: u16,
}

/// The address of a peer.
#[derive(Debug, Clone, Copy, PartialEq, Eq, Structural)]
pub struct EntEndpoint {
    pub address: u32,
    pub port: u16,
}

impl From<RawEndpoint> for EntEndpoint {
    fn from(ep: RawEndpoint) -> (r: Self) {
        EntEndpoint {
            address: ep.address,
            port: ep.port,
        }
    }
}

impl vstd::std_specs::convert::FromSpecImpl<RawEndpoint> for EntEndpoint {
    open spec fn obeys_from_spec() -> bool {
        true
    }

    open spec fn from_spec(ep: RawEndpoint) -> Self {
        EntEndpoint {
            address: ep.address,
            port: ep.port,
        }
    }
}

impl From<EntEndpoint> for RawEndpoint {
    fn from(ep: EntEndpoint) -> (r: Self) {
        RawEndpoint {
            address: ep.address,
            port: ep.port,
        }
    }
}

impl vstd::std_specs::convert::FromSpecImpl<EntEndpoint> for RawEndpoint {
    open spec fn obeys_from_spec() -> bool {
        true
    }

    open spec fn from_spec(ep: EntEndpoint) -> Self {
        RawEndpoint {
            address: ep.address,
            port: ep.port,
        }
    }
}

/// The fields of the C structure `ent_packet_header`.
#[derive(Debug, Clone, Copy, PartialEq, Eq, Structural)]
pub struct RawPacketHeader {
    pub magic: u16,
    pub version: u8,
    pub flags: u8,
    pub shard_id: u16,
    pub channel_id: u8,
    pub sequence: u64,
    pub ack: u64,
    pub ack_bitmap: u32,
    pub channel_sequence: u32,
    pub payload_size: u16,
}

/// The header of a received packet.
#[derive(Debug, Clone, PartialEq, Eq, Structural)]
pub struct EntPacketHeader {
    pub magic: u16,
    pub version: u8,
    pub flags: u8,
    pub shard_id: u16,
    pub channel_id: u8,
    pub sequence: u64,
    pub ack: u64,
    pub ack_bitmap: u32,
    pub channel_sequence: u32,
    pub payload_size: u16,
}

impl From<&RawPacketHeader> for EntPacketHeader {
    fn from(h: &RawPacketHeader) -> (r: Self) {
        EntPacketHeader {
            magic: h.magic,
            version: h.version,
            flags: h.flags,
            shard_id: h.shard_id,
            channel_id: h.channel_id,
            sequence: h.sequence,
            ack: h.ack,
            ack_bitmap: h.ack_bitmap,
            channel_sequence: h.channel_sequence,
            payload_size: h.payload_size,
        }
    }
}

impl vstd::std_specs::convert::FromSpecImpl<&RawPacketHeader> for EntPacketHeader {
    open spec fn obeys_from_spec() -> bool {
        true
    }

    open spec fn from_spec(h: &RawPacketHeader) -> Self {
        EntPacketHeader {
            magic: h.magic,
            version: h.version,
            flags: h.flags,
            shard_id: h.shard_id,
            channel_id: h.channel_id,
            sequence: h.sequence,
            ack: h.ack,
            ack_bitmap: h.ack_bitmap,
            channel_sequence: h.channel_sequence,
            payload_size: h.payload_size,
        }
    }
}

impl EntPacketHeader {
    /// The fields that the transport takes for this header.
    pub open spec fn raw(self) -> RawPacketHeader {
        RawPacketHeader {
            magic: self.magic,
            version: self.version,
            flags: self.flags,
            shard_id: self.shard_id,
            channel_id: self.channel_id,
            sequence: self.sequence,
            ack: self.ack,
            ack_bitmap: self.ack_bitmap,
            channel_sequence: self.channel_sequence,
            payload_size: self.payload_size,
        }
    }

    /// The header as the transport takes it.
    pub fn to_raw(&self) -> (r: RawPacketHeader)
        ensures
            r == self.raw(),
    {
        RawPacketHeader {
            magic: self.magic,
            version: self.version,
            flags: self.flags,
            shard_id: self.shard_id,
            channel_id: self.channel_id,
            sequence: self.sequence,
            ack: self.ack,
            ack_bitmap: self.ack_bitmap,
            channel_sequence: self.channel_sequence,
            payload_size: self.payload_size,
        }
    }
}

/// The fields of the C structure `ent_congestion_info`.
#[derive(Debug, Clone, Copy, PartialEq, Eq, Structural)]
pub struct RawCongestionInfo {
    pub cwnd: u32,
    pub in_flight: u32,
    pub ssthresh: u32,
    pub pacing_interval_us: i64,
    pub in_slow_start: i32,
}

/// The state of congestion control on a connection.
#[derive(Debug, Clone, Copy, PartialEq, Eq, Structural)]
pub struct EntCongestionInfo {
    pub cwnd: u32,
    pub in_flight: u32,
    pub ssthresh: u32,
    pub pacing_interval_us: i64,
    pub in_slow_start: bool,
}

impl From<RawCongestionInfo> for EntCongestionInfo {
    fn from(c: RawCongestionInfo) -> (r: Self) {
        EntCongestionInfo {
            cwnd: c.cwnd,
            in_flight: c.in_flight,
            ssthresh: c.ssthresh,
            pacing_interval_us: c.pacing_interval_us,
            in_slow_start: c.in_slow_start != 0,
        }
    }
}

impl vstd::std_specs::convert::FromSpecImpl<RawCongestionInfo> for EntCongestionInfo {
    open spec fn obeys_from_spec() -> bool {
        true
    }

    open spec fn from_spec(c: RawCongestionInfo) -> Self {
        EntCongestionInfo {
            cwnd: c.cwnd,
            in_flight: c.in_flight,
            ssthresh: c.ssthresh,
            pacing_interval_us: c.pacing_interval_us,
            in_slow_start: c.in_slow_start != 0,
        }
    }
}

/// The fields of the C structure `ent_lost_packet_info`.
#[derive(Debug, Clone, Copy, PartialEq, Eq, Structural)]
pub struct RawLostPacketInfo {
    pub sequence: u64,
    pub flags: u8,
    pub channel_id: u8,
    pub shard_id: u16,
    pub payload_size: u16,
    pub channel_sequence: u32,
    pub message_id: u32,
    pub fragment_index: u8,
    pub fragment_count: u8,
}

/// What is known of a packet that was lost.
#[derive(Debug, Clone, PartialEq, Eq, Structural)]
pub struct EntLostPacketInfo {
    pub sequence: u64,
    pub flags: u8,
    pub channel_id: u8,
    pub shard_id: u16,
    pub payload_size: u16,
    pub channel_sequence: u32,
    pub message_id: u32,
    pub fragment_index: u8,
    pub fragment_count: u8,
}

impl From<&RawLostPacketInfo> for EntLostPacketInfo {
    fn from(i: &RawLostPacketInfo) -> (r: Self) {
        EntLostPacketInfo {
            sequence: i.sequence,
            flags: i.flags,
            channel_id: i.channel_id,
            shard_id: i.shard_id,
            payload_size: i.payload_size,
            channel_sequence: i.channel_sequence,
            message_id: i.message_id,
            fragment_index: i.fragment_index,
            fragment_count: i.fragment_count,
        }
    }
}

impl vstd::std_specs::convert::FromSpecImpl<&RawLostPacketInfo> for EntLostPacketInfo {
    open spec fn obeys_from_spec() -> bool {
        true
    }

    open spec fn from_spec(i: &RawLostPacketInfo) -> Self {
        EntLostPacketInfo {
            sequence: i.sequence,
            flags: i.flags,
            channel_id: i.channel_id,
            shard_id: i.shard_id,
            payload_size: i.payload_size,
            channel_sequence: i.channel_sequence,
            message_id: i.message_id,
            fragment_index: i.fragment_index,
            fragment_count: i.fragment_count,
        }
    }
}

/// An address survives the way to the transport and back, and the way from it and
/// back to it.
pub proof fn law_endpoint_round_trip(ep: EntEndpoint, raw: RawEndpoint)
    ensures
        EntEndpoint::from_spec(RawEndpoint::from_spec(ep)) == ep,
        RawEndpoint::from_spec(EntEndpoint::from_spec(raw)) == raw,
{
}

/// A packet header survives the way to the transport and back, and the way from it
/// and back to it.
pub proof fn law_header_round_trip(header: EntPacketHeader, raw: RawPacketHeader)
    ensures
        EntPacketHeader::from_spec(&header.raw()) == header,
        EntPacketHeader::from_spec(&raw).raw() == raw,
{
}

/// Each field of a header is the field of the same name that the transport gave, and is handed
/// back to it under that name.
pub proof fn law_header_fields(raw: RawPacketHeader, header: EntPacketHeader)
    ensures
        ({
            let h = EntPacketHeader::from_spec(&raw);
            &&& h.magic == raw.magic && h.version == raw.version && h.flags == raw.flags
            &&& h.shard_id == raw.shard_id && h.channel_id == raw.channel_id
            &&& h.sequence == raw.sequence && h.ack == raw.ack && h.ack_bitmap == raw.ack_bitmap
            &&& h.channel_sequence == raw.channel_sequence && h.payload_size == raw.payload_size
        }),
        ({
            let r = header.raw();
            &&& r.magic == header.magic && r.version == header.version && r.flags == header.flags
            &&& r.shard_id == header.shard_id && r.channel_id == header.channel_id
            &&& r.sequence == header.sequence && r.ack == header.ack && r.ack_bitmap
                == header.ack_bitmap
            &&& r.channel_sequence == header.channel_sequence && r.payload_size
                == header.payload_size
        }),
{
}

/// Address and port, the figures of congestion and those of a lost packet are what the
/// transport gave; slow start holds exactly where its number is not zero.
pub proof fn law_fields(ep: RawEndpoint, c: RawCongestionInfo, lost: RawLostPacketInfo)
    ensures
        EntEndpoint::from_spec(ep).address == ep.address,
        EntEndpoint::from_spec(ep).port == ep.port,
        ({
            let info = EntCongestionInfo::from_spec(c);
            &&& info.cwnd == c.cwnd && info.in_flight == c.in_flight && info.ssthresh == c.ssthresh
            &&& info.pacing_interval_us == c.pacing_interval_us
            &&& info.in_slow_start <==> c.in_slow_start != 0
        }),
        ({
            let info = EntLostPacketInfo::from_spec(&lost);
            &&& info.sequence == lost.sequence && info.flags == lost.flags
            &&& info.channel_id == lost.channel_id && info.shard_id == lost.shard_id
            &&& info.payload_size == lost.payload_size && info.channel_sequence
                == lost.channel_sequence
            &&& info.message_id == lost.message_id && info.fragment_index == lost.fragment_index
            &&& info.fragment_count == lost.fragment_count
        }),
{
}

} // verus!

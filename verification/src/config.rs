//! Settings of the bridge between the transport's thread and its users.

use vstd::prelude::*;

verus! {

/// Nanoseconds in a millisecond.
pub const NANOS_PER_MILLI: u128 = 1_000_000;

/// Settings of the tick loop and of the channels of a bridge.
#[derive(Debug, Clone, Copy, PartialEq, Eq, Structural)]
pub struct SpawnConfig {
    /// Capacity of the command and event channels (default: 1024).
    pub channel_buffer: usize,
    /// Pause between ticks, in nanoseconds (default: 33 ms, about 30 ticks a second).
    pub tick_interval_nanos: u128,
    /// The most packets that one tick processes (default: 256).
    pub poll_batch: i32,
}

impl SpawnConfig {
    /// Whether a channel of the configured capacity can be made: the capacity is not
    /// zero and is at most an eighth of the address range.
    pub open spec fn has_valid_buffer(self) -> bool {
        0 < self.channel_buffer <= usize::MAX / 8
    }

    /// Whether a channel of the configured capacity can be made.
    pub fn is_valid(&self) -> (r: bool)
        ensures
            r == self.has_valid_buffer(),
    {
        0 < self.channel_buffer && self.channel_buffer <= usize::MAX / 8
    }

    /// The settings that are used where none are given.
    pub open spec fn standard() -> SpawnConfig {
        SpawnConfig {
            channel_buffer: 1024,
            tick_interval_nanos: (33 * NANOS_PER_MILLI) as u128,
            poll_batch: 256,
        }
    }

    /// Settings for high throughput, for benchmarks and soak tests.
    pub fn performance() -> (r: SpawnConfig)
        ensures
            r.channel_buffer == 65536,
            r.tick_interval_nanos == 1 * NANOS_PER_MILLI,
            r.poll_batch == 4096,
            r.has_valid_buffer(),
    {
        SpawnConfig {
            channel_buffer: 65536,
            tick_interval_nanos: 1 * NANOS_PER_MILLI,
            poll_batch: 4096,
        }
    }
}

impl Default for SpawnConfig {
    fn default() -> (r: Self)
        ensures
            r == SpawnConfig::standard(),
            r.has_valid_buffer(),
    {
        SpawnConfig {
            channel_buffer: 1024,
            tick_interval_nanos: 33 * NANOS_PER_MILLI,
            poll_batch: 256,
        }
    }
}

/// The standard settings are channels for 1024 messages, ticks of 33 milliseconds and up to 256
/// packets a tick, and a capacity is valid from one message up to an eighth of the address range.
pub proof fn law_standard_settings(config: SpawnConfig)
    ensures
        SpawnConfig::standard().channel_buffer == 1024,
        SpawnConfig::standard().tick_interval_nanos == 33_000_000,
        SpawnConfig::standard().poll_batch == 256,
        config.has_valid_buffer() <==> config.channel_buffer >= 1 && config.channel_buffer
            <= usize::MAX / 8,
{
}

} // verus!

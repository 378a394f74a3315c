//! Verified core of a client/server messaging bridge.

pub mod bench;
pub mod buffers;
pub mod channel;
pub mod client;
pub mod config;
pub mod ctext;
pub mod echo;
pub mod echo_server;
pub mod error;
pub mod loopback;
pub mod options;
pub mod packet;
pub mod percent;
pub mod reporter;
pub mod server;
pub mod soak;
pub mod soak_run;
pub mod stress;
pub mod stress_laws;
pub mod stress_run;
pub mod text;
pub mod wire;

//! Addresses of WiFi bridges, the format of their discovery replies, and the
//! decisions that discovery takes.
use vstd::prelude::*;

pub mod address;
pub mod bridge_set;
pub mod discovery;
pub mod reply;

pub use address::{BridgeAddress, Ipv4Address};



verus! {

/// Port to which the discovery query is broadcast (to `255.255.255.255`).
pub const DISCOVERY_PORT: u16 = 48899;

/// Local port on the wildcard interface that the socket binds.
pub const BIND_PORT: u16 = 48900;

/// Port on a bridge that receives command frames.
pub const COMMAND_PORT: u16 = 8899;

/// Payload of the discovery broadcast.
pub const QUERY_STRING: &'static str = "Link_Wi-Fi";

/// How many times the discovery query is broadcast.
pub const QUERY_REPEAT: usize = 10;

/// Pause between two broadcasts, and between two polls of the listener, in
/// milliseconds.
pub const QUERY_DELAY_MILLIS: u64 = 50;

/// Size of the buffer that one discovery reply is received into.
pub const REPLY_BUFFER_LEN: usize = 64;

} // verus!

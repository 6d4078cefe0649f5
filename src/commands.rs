//! Commands for communicating with WiFi bridges.
pub mod v3;

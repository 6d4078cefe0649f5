//! Commands, and their binary frames, for MiLight / LimitlessLED WiFi bridge
//! controllers, together with the decision logic of bridge discovery.
pub mod colors;
pub mod commands;
pub mod wifi;

//! The client's side: what it keeps between commands, the payloads it
//! hands to its user interface, and what it does with an incoming signal.

pub mod commands;
pub mod state;
pub mod webrtc;

//! The session and signaling fabric of a presence server for peers that
//! connect to each other directly.
//!
//! The server keeps named sessions, their members and hosts, and the
//! signal streams of the members. Every request is one step on that state:
//! a handler of [`service`] reads the request, changes the [`state`], and
//! returns the reply with the effects to carry out on the open streams.
//! What a step does is stated over the mathematical [`model`]; what holds
//! between any two steps is stated and proved in [`invariants`] and
//! [`protocol`].

pub mod client;
pub mod clock;
pub mod flags;
pub mod invariants;
pub mod keyed;
pub mod messages;
pub mod model;
pub mod names;
pub mod protocol;
pub mod registry;
pub mod senders;
pub mod service;
pub mod session;
pub mod state;

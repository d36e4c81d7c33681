//! Core of a real-time, multi-party messaging backend: the connection
//! registry, the inbound-packet protocol state machine, the conversation
//! key-distribution protocol, and the relay logic that reacts to protocol
//! actions.
//!
//! The account directory and the conversation store are external services;
//! the verified core consumes their answers as plain values and tells the
//! surrounding runtime which request to make next.

pub mod auth;
pub mod crypto;
pub mod engine;
pub mod keydist;
pub mod protocol;
pub mod relay;
pub mod registry;

//! The agent: configuration, identity, command dispatch, streaming.

pub mod attempts;
pub mod config;
pub mod console;
pub mod control;
pub mod handshake;
pub mod identity;
pub mod pairing;
pub mod pipeline;
pub mod service;
pub mod session;
pub mod signaling;
pub mod tls;

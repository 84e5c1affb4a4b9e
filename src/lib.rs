//! A small chat service: a length-prefixed frame codec, the per-connection
//! byte accumulator, the shutdown flag, the live-connection registry and the
//! chat rules, each with its contract.
pub mod wire;
pub mod message_stream;
pub mod connection;
pub mod thread_helper;
pub mod registry;
pub mod messages;
pub mod server_impl;
pub mod client_impl;

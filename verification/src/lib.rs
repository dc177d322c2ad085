//! Connection and stream management for an HTTP/2 client.
//!
//! The crate keeps the per-stream state of one connection, applies inbound
//! frames to it, performs the opening handshake and schedules outbound data.
//! Frames are logical values; moving them over a transport is left to
//! implementations of [`transport::SendFrame`] and [`transport::ReceiveFrame`].

pub mod error;
pub mod frame;
pub mod stream;
pub mod session;
pub mod transport;
pub mod connection;
pub mod client;
pub mod codec;
pub mod laws;

//! Messages, framing and transport.

pub mod bytes;
pub mod bytewise;
pub mod checksum;
pub mod client;
pub mod codec;
pub mod error;
pub mod framer;
pub mod message;
pub mod peer;
pub mod server;
pub mod transport;

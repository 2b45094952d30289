//! The shared-memory transport: one ring channel for each direction.

pub mod buffer;
pub mod channel;
pub mod error;
pub mod memory;
pub mod open;
pub mod pipe;
pub mod transport;
pub mod wait;

pub use channel::ShmemChannelState;
pub use error::ShmemTransportError;
pub use transport::{ShmemTransport, ShmemTransportBuilder};

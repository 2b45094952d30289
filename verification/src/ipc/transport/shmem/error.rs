//! Errors of the shared-memory transport.

use vstd::prelude::*;

verus! {

/// What can go wrong on a shared-memory channel.
#[allow(inconsistent_fields)]
#[derive(Clone, Copy, Debug, PartialEq, Eq, Structural)]
pub enum ShmemTransportError {
    /// The shared memory could not be created; `code` is the system's error.
    CreationError { code: i32 },
    /// The shared memory could not be opened; `code` is the system's error.
    OpenError { code: i32 },
    /// The state of the connection is unknown, or its cursors are out of
    /// step.
    InvalidConnectionState,
    /// The connection is not ready yet.
    ConnectionNotReady,
    /// The connection was closed.
    ConnectionClosed,
    /// The peer did not show up in time.
    ConnectionTimeout,
    /// The buffer cannot hold what has to be written.
    InsufficientBuffer { required: usize, capacity: usize },
    /// More was consumed than the read buffer held.
    ReadOverflow { attempted: usize, capacity: usize },
    /// More was submitted than the write buffer could take.
    WriteOverflow { attempted: usize, capacity: usize },
}

} // verus!

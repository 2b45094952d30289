//! Opening a channel that a peer creates.
//!
//! The opener polls: first for the shared memory to exist, then for the
//! channel in it to become ready. Before every attempt it looks at the clock
//! and gives up once the timeout has passed; between attempts it sleeps. The
//! machine below names the next thing to do; the caller does it and reports
//! what came of it.

use crate::ipc::transport::shmem::channel::{state_of, ShmemChannelState};
use crate::ipc::transport::shmem::error::ShmemTransportError;
use vstd::prelude::*;

verus! {

/// Time between two attempts, in milliseconds.
pub const RETRY_DELAY_MS: u64 = 10;

/// Where the opener stands.
#[derive(Clone, Copy, Debug, PartialEq, Eq, Structural)]
pub enum OpenPhase {
    /// About to look at the clock before trying to attach.
    AttachClock,
    /// About to try to open the shared memory.
    Attach,
    /// About to sleep because the shared memory does not exist yet.
    AttachSleep,
    /// Attached; about to look at the clock before reading the state.
    ReadyClock,
    /// About to read the state of the channel.
    ReadyState,
    /// About to sleep because the channel is not ready yet.
    ReadySleep,
    /// The channel is open and ready.
    Done,
    /// The opening has failed.
    Failed(ShmemTransportError),
}

/// What the opener has to do next.
#[derive(Clone, Copy, Debug, PartialEq, Eq, Structural)]
pub enum OpenAction {
    /// Read the time that has passed since the opening began.
    ReadClock,
    /// Try to open and map the shared memory.
    OpenRegion,
    /// Load the state byte of the channel.
    LoadState,
    /// Sleep for this many milliseconds.
    Sleep { millis: u64 },
    /// Hand the channel to the caller.
    Finish,
    /// Report the error.
    Fail(ShmemTransportError),
}

/// What the opener's last action brought back.
#[derive(Clone, Copy, Debug, PartialEq, Eq, Structural)]
pub enum OpenEvent {
    /// This many milliseconds have passed since the opening began.
    Elapsed { millis: u64 },
    /// The shared memory was opened and mapped.
    Attached,
    /// The shared memory does not exist.
    NotFound,
    /// The shared memory could not be opened; `code` is the system's error.
    AttachFailed { code: i32 },
    /// The state byte holds `value`.
    State { value: u8 },
    /// The sleep is over.
    Slept,
}

/// What has to be done in `phase`.
pub open spec fn open_pending_spec(phase: OpenPhase) -> OpenAction {
    match phase {
        OpenPhase::AttachClock => OpenAction::ReadClock,
        OpenPhase::Attach => OpenAction::OpenRegion,
        OpenPhase::AttachSleep => OpenAction::Sleep { millis: RETRY_DELAY_MS },
        OpenPhase::ReadyClock => OpenAction::ReadClock,
        OpenPhase::ReadyState => OpenAction::LoadState,
        OpenPhase::ReadySleep => OpenAction::Sleep { millis: RETRY_DELAY_MS },
        OpenPhase::Done => OpenAction::Finish,
        OpenPhase::Failed(e) => OpenAction::Fail(e),
    }
}

/// The phase that follows `phase` once `event` has come back, under a
/// timeout of `timeout_ms` milliseconds. An event that does not answer the
/// pending action leaves the phase as it is.
pub open spec fn open_advance_spec(phase: OpenPhase, event: OpenEvent, timeout_ms: u64) -> OpenPhase {
    match (phase, event) {
        (OpenPhase::AttachClock, OpenEvent::Elapsed { millis }) => if millis >= timeout_ms {
            OpenPhase::Failed(ShmemTransportError::ConnectionTimeout)
        } else {
            OpenPhase::Attach
        },
        (OpenPhase::Attach, OpenEvent::Attached) => OpenPhase::ReadyClock,
        (OpenPhase::Attach, OpenEvent::NotFound) => OpenPhase::AttachSleep,
        (OpenPhase::Attach, OpenEvent::AttachFailed { code }) => OpenPhase::Failed(
            ShmemTransportError::OpenError { code },
        ),
        (OpenPhase::AttachSleep, OpenEvent::Slept) => OpenPhase::AttachClock,
        (OpenPhase::ReadyClock, OpenEvent::Elapsed { millis }) => if millis >= timeout_ms {
            OpenPhase::Failed(ShmemTransportError::ConnectionTimeout)
        } else {
            OpenPhase::ReadyState
        },
        (OpenPhase::ReadyState, OpenEvent::State { value }) => match state_of(value) {
            Ok(ShmemChannelState::Ready) => OpenPhase::Done,
            Ok(ShmemChannelState::Closed) => OpenPhase::Failed(
                ShmemTransportError::ConnectionClosed,
            ),
            _ => OpenPhase::ReadySleep,
        },
        (OpenPhase::ReadySleep, OpenEvent::Slept) => OpenPhase::ReadyClock,
        _ => phase,
    }
}

impl OpenPhase {
    /// The phase in which every opening starts.
    pub fn start() -> (phase: OpenPhase)
        ensures
            phase == OpenPhase::AttachClock,
    {
        OpenPhase::AttachClock
    }

    /// What has to be done next.
    pub fn pending(&self) -> (action: OpenAction)
        ensures
            action == open_pending_spec(*self),
    {
        match *self {
            OpenPhase::AttachClock => OpenAction::ReadClock,
            OpenPhase::Attach => OpenAction::OpenRegion,
            OpenPhase::AttachSleep => OpenAction::Sleep { millis: RETRY_DELAY_MS },
            OpenPhase::ReadyClock => OpenAction::ReadClock,
            OpenPhase::ReadyState => OpenAction::LoadState,
            OpenPhase::ReadySleep => OpenAction::Sleep { millis: RETRY_DELAY_MS },
            OpenPhase::Done => OpenAction::Finish,
            OpenPhase::Failed(e) => OpenAction::Fail(e),
        }
    }

    /// Takes what the last action brought back and moves on.
    pub fn advance(self, event: OpenEvent, timeout_ms: u64) -> (next: OpenPhase)
        ensures
            next == open_advance_spec(self, event, timeout_ms),
    {
        match (self, event) {
            (OpenPhase::AttachClock, OpenEvent::Elapsed { millis }) => {
                if millis >= timeout_ms {
                    OpenPhase::Failed(ShmemTransportError::ConnectionTimeout)
                } else {
                    OpenPhase::Attach
                }
            },
            (OpenPhase::Attach, OpenEvent::Attached) => OpenPhase::ReadyClock,
            (OpenPhase::Attach, OpenEvent::NotFound) => OpenPhase::AttachSleep,
            (OpenPhase::Attach, OpenEvent::AttachFailed { code }) => OpenPhase::Failed(
                ShmemTransportError::OpenError { code },
            ),
            (OpenPhase::AttachSleep, OpenEvent::Slept) => OpenPhase::AttachClock,
            (OpenPhase::ReadyClock, OpenEvent::Elapsed { millis }) => {
                if millis >= timeout_ms {
                    OpenPhase::Failed(ShmemTransportError::ConnectionTimeout)
                } else {
                    OpenPhase::ReadyState
                }
            },
            (OpenPhase::ReadyState, OpenEvent::State { value }) => {
                match ShmemChannelState::try_from(value) {
                    Ok(ShmemChannelState::Ready) => OpenPhase::Done,
                    Ok(ShmemChannelState::Closed) => OpenPhase::Failed(
                        ShmemTransportError::ConnectionClosed,
                    ),
                    _ => OpenPhase::ReadySleep,
                }
            },
            (OpenPhase::ReadySleep, OpenEvent::Slept) => OpenPhase::ReadyClock,
            _ => self,
        }
    }
}

/// The opener never tries again once the timeout has passed: whenever the
/// clock shows that the timeout is over, the opening fails with a timeout,
/// whatever phase asked for the clock.
pub proof fn lemma_timeout_ends_opening(phase: OpenPhase, millis: u64, timeout_ms: u64)
    requires
        open_pending_spec(phase) == OpenAction::ReadClock,
        millis >= timeout_ms,
    ensures
        open_advance_spec(phase, OpenEvent::Elapsed { millis }, timeout_ms) == OpenPhase::Failed(
            ShmemTransportError::ConnectionTimeout,
        ),
{
}

/// The opening is done only after the channel was seen ready.
pub proof fn lemma_done_only_when_ready(phase: OpenPhase, event: OpenEvent, timeout_ms: u64)
    requires
        phase != OpenPhase::Done,
        open_advance_spec(phase, event, timeout_ms) == OpenPhase::Done,
    ensures
        phase == OpenPhase::ReadyState,
        event == (OpenEvent::State { value: 1 }),
{
}

} // verus!

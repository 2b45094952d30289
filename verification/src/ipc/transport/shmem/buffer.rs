//! The buffers that a channel hands out.
//!
//! A buffer is a span of the ring, held while the buffer lock is held. What
//! its holder consumes or submits takes effect when the buffer is released:
//! the counter moves on and one waiter of the other side is woken. A buffer
//! that is released without a consume or a submit changes nothing.

use crate::ipc::transport::shmem::channel::BufferSpan;
use crate::ipc::transport::shmem::error::ShmemTransportError;
use vstd::prelude::*;

verus! {

/// What releasing a buffer does to the channel.
#[derive(Clone, Copy, Debug, PartialEq, Eq, Structural)]
pub enum Release {
    /// Nothing: no counter moves and nobody is woken.
    Nothing,
    /// The counter of the buffer's side moves on by `by` bytes, the event
    /// counter of the other side is raised, and one of its waiters is woken.
    Advance { by: usize },
}

/// The effect of releasing a buffer of which `amount` bytes were consumed
/// or submitted.
pub open spec fn release_spec(amount: usize) -> Release {
    if amount > 0 {
        Release::Advance { by: amount }
    } else {
        Release::Nothing
    }
}

/// A span of the ring that a reader holds.
#[derive(Clone, Copy, Debug, PartialEq, Eq, Structural)]
pub struct ShmemReadBuffer {
    pub span: BufferSpan,
    pub consumed: usize,
}

impl ShmemReadBuffer {
    /// The buffer over `span`, of which nothing is consumed yet.
    pub fn new(span: BufferSpan) -> (buffer: ShmemReadBuffer)
        ensures
            buffer == (ShmemReadBuffer { span, consumed: 0 }),
    {
        ShmemReadBuffer { span, consumed: 0 }
    }

    /// Number of bytes that can be read.
    pub fn len(&self) -> (n: usize)
        ensures
            n == self.span.len,
    {
        self.span.len
    }

    /// Marks the first `bytes` bytes as consumed. Fails, and marks nothing,
    /// if the buffer holds fewer.
    pub fn consume(self, bytes: usize) -> (r: Result<ShmemReadBuffer, ShmemTransportError>)
        ensures
            r == if bytes > self.span.len {
                Err::<ShmemReadBuffer, ShmemTransportError>(
                    ShmemTransportError::ReadOverflow { attempted: bytes, capacity: self.span.len },
                )
            } else {
                Ok::<ShmemReadBuffer, ShmemTransportError>(
                    ShmemReadBuffer { span: self.span, consumed: bytes },
                )
            },
    {
        if bytes > self.span.len {
            return Err(
                ShmemTransportError::ReadOverflow { attempted: bytes, capacity: self.span.len },
            );
        }
        Ok(ShmemReadBuffer { span: self.span, consumed: bytes })
    }

    /// What releasing the buffer does: the read counter moves on by what was
    /// consumed, and a writer is woken.
    pub fn release(self) -> (effect: Release)
        ensures
            effect == release_spec(self.consumed),
    {
        if self.consumed > 0 {
            Release::Advance { by: self.consumed }
        } else {
            Release::Nothing
        }
    }
}

/// A span of the ring that a writer holds.
#[derive(Clone, Copy, Debug, PartialEq, Eq, Structural)]
pub struct ShmemWriteBuffer {
    pub span: BufferSpan,
    pub submitted: usize,
}

impl ShmemWriteBuffer {
    /// The buffer over `span`, of which nothing is submitted yet.
    pub fn new(span: BufferSpan) -> (buffer: ShmemWriteBuffer)
        ensures
            buffer == (ShmemWriteBuffer { span, submitted: 0 }),
    {
        ShmemWriteBuffer { span, submitted: 0 }
    }

    /// Number of bytes that can be written.
    pub fn len(&self) -> (n: usize)
        ensures
            n == self.span.len,
    {
        self.span.len
    }

    /// Marks the first `bytes` bytes as submitted. Fails, and marks nothing,
    /// if the buffer is shorter.
    pub fn submit(self, bytes: usize) -> (r: Result<ShmemWriteBuffer, ShmemTransportError>)
        ensures
            r == if bytes > self.span.len {
                Err::<ShmemWriteBuffer, ShmemTransportError>(
                    ShmemTransportError::WriteOverflow {
                        attempted: bytes,
                        capacity: self.span.len,
                    },
                )
            } else {
                Ok::<ShmemWriteBuffer, ShmemTransportError>(
                    ShmemWriteBuffer { span: self.span, submitted: bytes },
                )
            },
    {
        if bytes > self.span.len {
            return Err(
                ShmemTransportError::WriteOverflow { attempted: bytes, capacity: self.span.len },
            );
        }
        Ok(ShmemWriteBuffer { span: self.span, submitted: bytes })
    }

    /// What releasing the buffer does: the write counter moves on by what
    /// was submitted, and a reader is woken.
    pub fn release(self) -> (effect: Release)
        ensures
            effect == release_spec(self.submitted),
    {
        if self.submitted > 0 {
            Release::Advance { by: self.submitted }
        } else {
            Release::Nothing
        }
    }
}

} // verus!

//! One direction of a connection: a ring of bytes between a writer and a
//! reader.
//!
//! The ring is described by two counters: `head` counts the bytes that
//! readers have consumed, `tail` the bytes that writers have submitted. Both
//! only grow and wrap around at the end of `usize`. One byte of the ring is
//! never handed out, so that a full ring differs from an empty one. The data
//! region is mapped twice in a row, hence every span that is handed out is
//! contiguous, wherever it starts.
//!
//! This module decides; it does not touch shared memory. The caller loads the
//! counters, asks what to do, and stores what comes back.

use crate::ipc::transport::shmem::error::ShmemTransportError;
use vstd::prelude::*;
use vstd::wrapping::usize_specs::{wrapping_add, wrapping_sub};

verus! {

/// Offset of the read counter in the control block.
pub const HEAD_OFFSET: usize = 0;

/// Offset of the write counter in the control block.
pub const TAIL_OFFSET: usize = 64;

/// Offset of the state byte in the control block.
pub const STATE_OFFSET: usize = 128;

/// Offset of the buffer lock in the control block.
pub const BUF_LOCK_OFFSET: usize = 192;

/// Offset of the event counter on which readers wait.
pub const READABLE_OFFSET: usize = 256;

/// Offset of the event counter on which writers wait.
pub const WRITABLE_OFFSET: usize = 320;

/// Length of the control block: six fields, each on a cache line of its own.
pub const CTRL_BLOCK_LEN: usize = 384;

/// Number of waiters to wake when a channel is closed: all of them.
pub const WAKE_ALL: i32 = 0x7fff_ffff;

/// Number of waiters to wake when a buffer is released: one.
pub const WAKE_ONE: i32 = 1;

/// What a fresh control block holds.
#[derive(Clone, Copy, Debug, PartialEq, Eq, Structural)]
pub struct CtrlBlockImage {
    pub head: usize,
    pub tail: usize,
    pub state: u8,
    pub buf_lock: u32,
    pub readable: u32,
    pub writable: u32,
}

/// The control block that a creator writes before it declares the channel
/// ready: an empty ring, a free lock, event counters at zero, and the state
/// uninitialised.
pub fn initial_ctrl_block() -> (image: CtrlBlockImage)
    ensures
        image == (CtrlBlockImage {
            head: 0,
            tail: 0,
            state: 0,
            buf_lock: 0,
            readable: 0,
            writable: 0,
        }),
        state_of(image.state) == Ok::<ShmemChannelState, ShmemTransportError>(
            ShmemChannelState::Uninited,
        ),
        used_spec(image.head, image.tail) == 0,
{
    CtrlBlockImage { head: 0, tail: 0, state: 0, buf_lock: 0, readable: 0, writable: 0 }
}

/// An event counter after one more event; it wraps around at the end of
/// `u32`. A waiter that noted the old value before it released the lock does
/// not sleep on the new one.
pub fn raise_event(counter: u32) -> (next: u32)
    ensures
        next == vstd::wrapping::u32_specs::wrapping_add(counter, 1),
        next != counter,
{
    counter.wrapping_add(1)
}

/// What closing a channel does to its waiters.
#[derive(Clone, Copy, Debug, PartialEq, Eq, Structural)]
pub struct CloseEffect {
    /// The state byte to store.
    pub state: u8,
    /// Number of readers to wake.
    pub wake_readers: i32,
    /// Number of writers to wake.
    pub wake_writers: i32,
}

/// Closing a channel: the state becomes closed, and all waiters on both
/// sides are woken, to find the channel closed.
pub fn close_effect() -> (effect: CloseEffect)
    ensures
        effect == (CloseEffect { state: 2, wake_readers: WAKE_ALL, wake_writers: WAKE_ALL }),
        state_of(effect.state) == Ok::<ShmemChannelState, ShmemTransportError>(
            ShmemChannelState::Closed,
        ),
{
    CloseEffect { state: 2, wake_readers: WAKE_ALL, wake_writers: WAKE_ALL }
}

/// Whether a channel is closed when it is dropped: only by its owner.
pub fn closes_on_drop(is_owner: bool) -> (closes: bool)
    ensures
        closes == is_owner,
{
    is_owner
}

/// The state of a channel. It only moves forward: from uninitialised to
/// ready to closed.
#[derive(Clone, Copy, Debug, PartialEq, Eq, Structural)]
pub enum ShmemChannelState {
    Uninited,
    Ready,
    Closed,
}

/// The state that the byte `value` stands for.
pub open spec fn state_of(value: u8) -> Result<ShmemChannelState, ShmemTransportError> {
    if value == 0 {
        Ok(ShmemChannelState::Uninited)
    } else if value == 1 {
        Ok(ShmemChannelState::Ready)
    } else if value == 2 {
        Ok(ShmemChannelState::Closed)
    } else {
        Err(ShmemTransportError::InvalidConnectionState)
    }
}

impl ShmemChannelState {
    /// The byte that stands for the state.
    pub open spec fn raw_spec(self) -> u8 {
        match self {
            ShmemChannelState::Uninited => 0,
            ShmemChannelState::Ready => 1,
            ShmemChannelState::Closed => 2,
        }
    }

    /// The rank of the state in the order in which states follow each other.
    pub open spec fn rank(self) -> int {
        self.raw_spec() as int
    }

    /// The state that the byte `value` stands for.
    pub fn try_from(value: u8) -> (r: Result<ShmemChannelState, ShmemTransportError>)
        ensures
            r == state_of(value),
            r is Ok ==> r->Ok_0.raw_spec() == value,
    {
        match value {
            0 => Ok(ShmemChannelState::Uninited),
            1 => Ok(ShmemChannelState::Ready),
            2 => Ok(ShmemChannelState::Closed),
            _ => Err(ShmemTransportError::InvalidConnectionState),
        }
    }

    /// The byte that stands for the state.
    pub fn as_raw(self) -> (value: u8)
        ensures
            value == self.raw_spec(),
            state_of(value) == Ok::<ShmemChannelState, ShmemTransportError>(self),
    {
        match self {
            ShmemChannelState::Uninited => 0,
            ShmemChannelState::Ready => 1,
            ShmemChannelState::Closed => 2,
        }
    }

    /// Whether a channel may move from `self` to `next`: never backwards.
    pub fn may_become(self, next: ShmemChannelState) -> (ok: bool)
        ensures
            ok == (self.rank() <= next.rank()),
    {
        self.as_raw() <= next.as_raw()
    }
}

impl Default for ShmemChannelState {
    /// A channel starts out uninitialised.
    fn default() -> (state: ShmemChannelState)
        ensures
            state == ShmemChannelState::Uninited,
    {
        ShmemChannelState::Uninited
    }
}

/// Number of bytes in a ring whose counters stand at `head` and `tail`.
pub open spec fn used_spec(head: usize, tail: usize) -> usize {
    wrapping_sub(tail, head)
}

/// The ring invariant: the ring holds at most `capacity - 1` bytes.
pub open spec fn ring_inv(head: usize, tail: usize, capacity: usize) -> bool {
    capacity > 0 && used_spec(head, tail) <= capacity - 1
}

/// A span of the data region: `len` bytes from `offset` on. With the data
/// region mapped twice in a row, the span is contiguous also where
/// `offset + len` exceeds the capacity.
#[derive(Clone, Copy, Debug, PartialEq, Eq, Structural)]
pub struct BufferSpan {
    pub offset: usize,
    pub len: usize,
}

/// What a party that asks for a buffer is told.
#[derive(Clone, Copy, Debug, PartialEq, Eq, Structural)]
pub enum Acquire {
    /// Use this span.
    Granted(BufferSpan),
    /// Nothing to hand out: note the event counter, release the lock, wait
    /// on the counter, and ask again.
    Wait,
}

/// What a reader is told on a channel in state `state` with the counters at
/// `head` and `tail`.
pub open spec fn acquire_read_spec(state: u8, head: usize, tail: usize, capacity: usize) -> Result<
    Acquire,
    ShmemTransportError,
> {
    let used = used_spec(head, tail);
    if state_of(state) is Err {
        Err(ShmemTransportError::InvalidConnectionState)
    } else if state_of(state)->Ok_0 == ShmemChannelState::Closed {
        Err(ShmemTransportError::ConnectionClosed)
    } else if used > capacity - 1 {
        Err(ShmemTransportError::InvalidConnectionState)
    } else if used > 0 {
        Ok(Acquire::Granted(BufferSpan { offset: (head % capacity) as usize, len: used }))
    } else {
        Ok(Acquire::Wait)
    }
}

/// What a writer is told on a channel in state `state` with the counters at
/// `head` and `tail`.
pub open spec fn acquire_write_spec(state: u8, head: usize, tail: usize, capacity: usize) -> Result<
    Acquire,
    ShmemTransportError,
> {
    let used = used_spec(head, tail);
    if state_of(state) is Err {
        Err(ShmemTransportError::InvalidConnectionState)
    } else if state_of(state)->Ok_0 == ShmemChannelState::Closed {
        Err(ShmemTransportError::ConnectionClosed)
    } else if used > capacity - 1 {
        Err(ShmemTransportError::InvalidConnectionState)
    } else if capacity - used - 1 > 0 {
        Ok(
            Acquire::Granted(
                BufferSpan {
                    offset: (tail % capacity) as usize,
                    len: (capacity - used - 1) as usize,
                },
            ),
        )
    } else {
        Ok(Acquire::Wait)
    }
}

/// Decides what a reader gets: all bytes that the ring holds, from the read
/// position on; nothing while the ring is empty. Fails on a closed channel,
/// on a state byte that is no state, and on counters that break the ring
/// invariant.
pub fn acquire_read(state: u8, head: usize, tail: usize, capacity: usize) -> (r: Result<
    Acquire,
    ShmemTransportError,
>)
    requires
        capacity > 0,
    ensures
        r == acquire_read_spec(state, head, tail, capacity),
        r matches Ok(Acquire::Granted(span)) ==> span.offset < capacity && 0 < span.len
            <= capacity - 1,
{
    match ShmemChannelState::try_from(state)? {
        ShmemChannelState::Closed => {
            return Err(ShmemTransportError::ConnectionClosed);
        },
        _ => {},
    }
    let used = tail.wrapping_sub(head);
    if used > capacity - 1 {
        return Err(ShmemTransportError::InvalidConnectionState);
    }
    if used > 0 {
        return Ok(Acquire::Granted(BufferSpan { offset: head % capacity, len: used }));
    }
    Ok(Acquire::Wait)
}

/// Decides what a writer gets: all free bytes but one, from the write
/// position on; nothing while the ring is full. Fails as `acquire_read` does.
pub fn acquire_write(state: u8, head: usize, tail: usize, capacity: usize) -> (r: Result<
    Acquire,
    ShmemTransportError,
>)
    requires
        capacity > 0,
    ensures
        r == acquire_write_spec(state, head, tail, capacity),
        r matches Ok(Acquire::Granted(span)) ==> span.offset < capacity && 0 < span.len
            <= capacity - 1,
{
    match ShmemChannelState::try_from(state)? {
        ShmemChannelState::Closed => {
            return Err(ShmemTransportError::ConnectionClosed);
        },
        _ => {},
    }
    let used = tail.wrapping_sub(head);
    if used > capacity - 1 {
        return Err(ShmemTransportError::InvalidConnectionState);
    }
    let free = capacity - used - 1;
    if free > 0 {
        return Ok(Acquire::Granted(BufferSpan { offset: tail % capacity, len: free }));
    }
    Ok(Acquire::Wait)
}

/// A counter after `by` more bytes: it wraps around at the end of `usize`.
pub fn advance(counter: usize, by: usize) -> (next: usize)
    ensures
        next == wrapping_add(counter, by),
{
    counter.wrapping_add(by)
}

/// An operation on the ring.
#[derive(Clone, Copy, Debug, PartialEq, Eq, Structural)]
pub enum RingOp {
    /// A writer submits this many bytes.
    Submit(usize),
    /// A reader consumes this many bytes.
    Consume(usize),
}

/// The counters `(head, tail)` after `op`. A writer is granted the free
/// bytes but one and a reader the bytes in the ring; an operation that asks
/// for more is refused and changes nothing.
pub open spec fn ring_step(head: usize, tail: usize, capacity: usize, op: RingOp) -> (usize, usize) {
    match op {
        RingOp::Submit(n) => if n <= capacity - used_spec(head, tail) - 1 {
            (head, wrapping_add(tail, n))
        } else {
            (head, tail)
        },
        RingOp::Consume(n) => if n <= used_spec(head, tail) {
            (wrapping_add(head, n), tail)
        } else {
            (head, tail)
        },
    }
}

/// The counters after the operations `ops`, in order, on an empty ring.
pub open spec fn ring_run(capacity: usize, ops: Seq<RingOp>) -> (usize, usize)
    decreases ops.len(),
{
    if ops.len() == 0 {
        (0, 0)
    } else {
        let (head, tail) = ring_run(capacity, ops.drop_last());
        ring_step(head, tail, capacity, ops.last())
    }
}

/// One operation keeps the ring invariant.
pub proof fn lemma_ring_step_keeps_inv(head: usize, tail: usize, capacity: usize, op: RingOp)
    requires
        ring_inv(head, tail, capacity),
    ensures
        ring_inv(ring_step(head, tail, capacity, op).0, ring_step(head, tail, capacity, op).1, capacity),
{
}

/// After any interleaving of submits and consumes, the ring holds between 0
/// and `capacity - 1` bytes.
pub proof fn lemma_ring_invariant(capacity: usize, ops: Seq<RingOp>)
    requires
        capacity > 0,
    ensures
        ring_inv(ring_run(capacity, ops).0, ring_run(capacity, ops).1, capacity),
        0 <= used_spec(ring_run(capacity, ops).0, ring_run(capacity, ops).1) <= capacity - 1,
    decreases ops.len(),
{
    if ops.len() > 0 {
        lemma_ring_invariant(capacity, ops.drop_last());
        let (head, tail) = ring_run(capacity, ops.drop_last());
        lemma_ring_step_keeps_inv(head, tail, capacity, ops.last());
    }
}

/// What a grant that was made on a ring within its invariant allows is what
/// `ring_step` accepts: a reader may consume up to the granted length, a
/// writer may submit up to it.
pub proof fn lemma_grant_is_admissible(state: u8, head: usize, tail: usize, capacity: usize, n: usize)
    requires
        capacity > 0,
    ensures
        acquire_read_spec(state, head, tail, capacity) matches Ok(Acquire::Granted(span)) && n
            <= span.len ==> ring_step(head, tail, capacity, RingOp::Consume(n)) == (
            wrapping_add(head, n),
            tail,
        ),
        acquire_write_spec(state, head, tail, capacity) matches Ok(Acquire::Granted(span)) && n
            <= span.len ==> ring_step(head, tail, capacity, RingOp::Submit(n)) == (
            head,
            wrapping_add(tail, n),
        ),
{
}

} // verus!

//! The slots of the control block: one cache line for each field.

use vstd::prelude::*;

verus! {

/// Width of one slot of the control block, in bytes.
pub const CACHE_LINE_LEN: usize = 64;

/// A field of the control block. In shared memory each field starts a cache
/// line of its own, at the offset that `slot_offset` gives; the wrapper names
/// such a field and leaves its placing to whoever lays the block out.
pub struct CacheLineAligned<T>(pub T);

impl<T> CacheLineAligned<T> {
    /// Wraps `value`.
    pub fn new(value: T) -> (slot: Self)
        ensures
            slot.0 == value,
    {
        CacheLineAligned(value)
    }

    /// Shared access to the wrapped value.
    pub fn get(&self) -> (value: &T)
        ensures
            *value == self.0,
    {
        &self.0
    }

    /// Unwraps the value.
    pub fn into_inner(self) -> (value: T)
        ensures
            value == self.0,
    {
        self.0
    }
}

/// Byte offset of slot number `index` in a block of cache-line slots.
pub open spec fn slot_offset_spec(index: nat) -> nat {
    index * 64
}

/// Byte offset of slot number `index`, if it fits in `usize`.
pub fn slot_offset(index: usize) -> (offset: Option<usize>)
    ensures
        offset == if slot_offset_spec(index as nat) <= usize::MAX {
            Some(slot_offset_spec(index as nat) as usize)
        } else {
            None
        },
{
    index.checked_mul(CACHE_LINE_LEN)
}

} // verus!

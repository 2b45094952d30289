//! Aligned reading and writing over a byte buffer.
//!
//! A cursor walks a buffer that is taken to lie at a known address. Every
//! item is placed at the next address that its alignment admits, so a reader
//! that asks for the same sizes and alignments as the writer, over a buffer
//! at an address of the same alignment, finds every item where it was put.

use crate::ipc::bytes::overwrite;
use vstd::arithmetic::power2::is_pow2;
use vstd::prelude::*;

pub mod buffer;
pub mod laws;

pub use buffer::BytewiseBuffer;

verus! {

/// Errors of bytewise reading and writing.
#[allow(inconsistent_fields)]
#[derive(Clone, Copy, Debug, PartialEq, Eq, Structural)]
pub enum BytewiseError {
    /// The buffer is too short for what is read or written.
    InsufficientBuffer { required: usize, capacity: usize },
    /// The alignment asked for is not a power of two.
    InvalidAlignment { align: usize },
    /// No address of the right alignment exists. Aligning a byte address to
    /// a power of two always succeeds, so the cursors of this crate do not
    /// report this.
    IntrinsicMisalignment { align: usize },
    /// Source and destination of a raw copy overlap.
    IllegalOverlappingCopy,
}

/// The address at which values of no size are taken to lie: what a
/// dangling byte pointer holds.
pub const DANGLING_ADDRESS: usize = 1;

/// A position in a buffer that lies at address `base`.
pub struct Cursor {
    /// The bytes of the buffer.
    pub bytes: Seq<u8>,
    /// The address of the first byte.
    pub base: usize,
    /// The offset of the next byte to read or write.
    pub pos: usize,
}

/// Where an item that was read lies.
#[derive(Clone, Copy, Debug, PartialEq, Eq, Structural)]
pub struct RawRead {
    /// The address of the first byte of the item.
    pub addr: usize,
    /// The offset of that byte in the buffer.
    pub offset: usize,
}

/// An item that was read: where it lies, and a copy of its bytes.
pub struct ReadItem {
    /// The address of the first byte of the item.
    pub addr: usize,
    /// The bytes of the item.
    pub bytes: Vec<u8>,
}

/// Number of bytes to skip from `addr` to the next multiple of `align`.
pub open spec fn padding_spec(addr: int, align: int) -> int
    recommends
        align > 0,
{
    (align - addr % align) % align
}

/// `n` as a `usize`, or `usize::MAX` where it does not fit.
pub open spec fn saturate(n: int) -> usize {
    if n > usize::MAX {
        usize::MAX
    } else {
        n as usize
    }
}

/// Whether the `size` bytes at `a` and the `size` bytes at `b` have a byte
/// in common, with both ends capped at the end of the address space.
pub open spec fn ranges_overlap(a: usize, b: usize, size: usize) -> bool {
    a < saturate(b + size) && saturate(a + size) > b
}

/// Writing `src` with alignment `align` at cursor `c`. With `origin` set, the
/// bytes come from that address and must not overlap their destination.
pub open spec fn write_step(c: Cursor, origin: Option<usize>, src: Seq<u8>, align: usize) -> Result<
    Cursor,
    BytewiseError,
> {
    let padding = padding_spec(c.base + c.pos, align as int);
    let total = padding + src.len();
    if src.len() == 0 {
        Ok(c)
    } else if !is_pow2(align as int) {
        Err(BytewiseError::InvalidAlignment { align })
    } else if c.pos > c.bytes.len() {
        Err(
            BytewiseError::InsufficientBuffer {
                required: saturate(c.pos + 1),
                capacity: c.bytes.len() as usize,
            },
        )
    } else if total > c.bytes.len() - c.pos {
        Err(
            BytewiseError::InsufficientBuffer {
                required: saturate(c.pos + saturate(total)),
                capacity: c.bytes.len() as usize,
            },
        )
    } else if origin is Some && ranges_overlap(
        origin->Some_0,
        (c.base + c.pos + padding) as usize,
        src.len() as usize,
    ) {
        Err(BytewiseError::IllegalOverlappingCopy)
    } else {
        Ok(
            Cursor {
                bytes: overwrite(c.bytes, c.pos + padding, src),
                base: c.base,
                pos: (c.pos + total) as usize,
            },
        )
    }
}

/// Reading `size` bytes with alignment `align` at cursor `c`: where the item
/// lies, and the cursor behind it.
pub open spec fn read_step(c: Cursor, size: usize, align: usize) -> Result<
    (RawRead, Cursor),
    BytewiseError,
> {
    let padding = padding_spec(c.base + c.pos, align as int);
    let total = padding + size;
    if size == 0 {
        Ok((RawRead { addr: DANGLING_ADDRESS, offset: c.pos }, c))
    } else if !is_pow2(align as int) {
        Err(BytewiseError::InvalidAlignment { align })
    } else if c.pos > c.bytes.len() {
        Err(BytewiseError::InsufficientBuffer { required: size, capacity: 0 })
    } else if total > c.bytes.len() - c.pos {
        Err(
            BytewiseError::InsufficientBuffer {
                required: saturate(total),
                capacity: (c.bytes.len() - c.pos) as usize,
            },
        )
    } else {
        Ok(
            (
                RawRead {
                    addr: (c.base + c.pos + padding) as usize,
                    offset: (c.pos + padding) as usize,
                },
                Cursor { pos: (c.pos + total) as usize, ..c },
            ),
        )
    }
}

/// The bytes of the item that `read_step` finds, or none for an item of no
/// size.
pub open spec fn item_bytes(c: Cursor, raw: RawRead, size: usize) -> Seq<u8> {
    if size == 0 {
        Seq::empty()
    } else {
        c.bytes.subrange(raw.offset as int, raw.offset + size)
    }
}

/// Number of bytes between the position of `c` and the end of its buffer.
pub open spec fn remaining(c: Cursor) -> usize {
    if c.pos <= c.bytes.len() {
        (c.bytes.len() - c.pos) as usize
    } else {
        0
    }
}

/// A cursor whose buffer ends inside the address space.
pub open spec fn cursor_fits(c: Cursor) -> bool {
    c.base + c.bytes.len() <= usize::MAX
}

/// Reads items from a buffer, each at the alignment asked for.
pub trait BytewiseReader {
    /// The buffer and the read position.
    spec fn source(&self) -> Cursor;

    /// Number of bytes read so far, padding included.
    fn read_bytes(&self) -> (n: usize)
        ensures
            n == self.source().pos,
    ;

    /// Number of bytes between the read position and the end of the buffer.
    fn remaining_bytes(&self) -> (n: usize)
        ensures
            n == remaining(self.source()),
    ;

    /// Skips to the next address that `align` admits, takes `size` bytes from
    /// there, and returns where they lie.
    fn read_raw(&mut self, size: usize, align: usize) -> (r: Result<RawRead, BytewiseError>)
        requires
            cursor_fits(old(self).source()),
        ensures
            match read_step(old(self).source(), size, align) {
                Ok((raw, next)) => r == Ok::<RawRead, BytewiseError>(raw) && final(self).source()
                    == next,
                Err(e) => r == Err::<RawRead, BytewiseError>(e) && final(self).source() == old(
                    self,
                ).source(),
            },
    ;

    /// Reads an item of `size` bytes at alignment `align`: the address at
    /// which it lies, and a copy of its bytes.
    fn read_ref(&mut self, size: usize, align: usize) -> (r: Result<ReadItem, BytewiseError>)
        requires
            cursor_fits(old(self).source()),
        ensures
            match read_step(old(self).source(), size, align) {
                Ok((raw, next)) => r is Ok && r->Ok_0.addr == raw.addr && r->Ok_0.bytes@
                    == item_bytes(old(self).source(), raw, size) && final(self).source() == next,
                Err(e) => r == Err::<ReadItem, BytewiseError>(e) && final(self).source() == old(
                    self,
                ).source(),
            },
    ;

    /// Reads an item as `read_ref` does, for a reader that goes on to write
    /// to the item's copy.
    fn read_mut(&mut self, size: usize, align: usize) -> (r: Result<ReadItem, BytewiseError>)
        requires
            cursor_fits(old(self).source()),
        ensures
            match read_step(old(self).source(), size, align) {
                Ok((raw, next)) => r is Ok && r->Ok_0.addr == raw.addr && r->Ok_0.bytes@
                    == item_bytes(old(self).source(), raw, size) && final(self).source() == next,
                Err(e) => r == Err::<ReadItem, BytewiseError>(e) && final(self).source() == old(
                    self,
                ).source(),
            },
    ;
}

/// Writes items into a buffer, each at the alignment asked for.
pub trait BytewiseWriter {
    /// The buffer and the write position.
    spec fn sink(&self) -> Cursor;

    /// Number of bytes written so far, padding included.
    fn written_bytes(&self) -> (n: usize)
        ensures
            n == self.sink().pos,
    ;

    /// Copies the bytes `src`, which lie at address `src_addr`, to the next
    /// address that `align` admits. Fails without writing if source and
    /// destination overlap.
    fn write_raw(&mut self, src_addr: usize, src: &[u8], align: usize) -> (r: Result<
        (),
        BytewiseError,
    >)
        requires
            cursor_fits(old(self).sink()),
        ensures
            match write_step(old(self).sink(), Some(src_addr), src@, align) {
                Ok(next) => r is Ok && final(self).sink() == next,
                Err(e) => r == Err::<(), BytewiseError>(e) && final(self).sink() == old(
                    self,
                ).sink(),
            },
    ;

    /// Copies the bytes `src` of a value to the next address that `align`
    /// admits.
    fn write_ref(&mut self, src: &[u8], align: usize) -> (r: Result<(), BytewiseError>)
        requires
            cursor_fits(old(self).sink()),
        ensures
            match write_step(old(self).sink(), None, src@, align) {
                Ok(next) => r is Ok && final(self).sink() == next,
                Err(e) => r == Err::<(), BytewiseError>(e) && final(self).sink() == old(
                    self,
                ).sink(),
            },
    ;
}

/// A value that can be written through a bytewise writer.
pub trait BytewiseWrite {
    /// Writing the value at cursor `c`: the cursor behind it, or the error
    /// that stops the writing.
    spec fn write_spec(&self, c: Cursor) -> Result<Cursor, BytewiseError>;

    /// Writes the value. On success the writer stands behind it; after an
    /// error the writer may hold a part of the value.
    fn write_to<W: BytewiseWriter>(&self, writer: &mut W) -> (r: Result<(), BytewiseError>)
        requires
            cursor_fits(old(writer).sink()),
        ensures
            match self.write_spec(old(writer).sink()) {
                Ok(next) => r is Ok && final(writer).sink() == next,
                Err(e) => r == Err::<(), BytewiseError>(e),
            },
            final(writer).sink().base == old(writer).sink().base,
            final(writer).sink().bytes.len() == old(writer).sink().bytes.len(),
    ;
}

/// A record of fixed layout that is read in one piece.
pub trait BytewiseRead: Sized {
    /// Whether reading at cursor `c` may give `result` and leave the reader
    /// at `rest`.
    spec fn read_ref_spec(c: Cursor, result: Result<Self, BytewiseError>, rest: Cursor) -> bool;

    /// Reads the record.
    fn read_ref<R: BytewiseReader>(reader: &mut R) -> (r: Result<Self, BytewiseError>)
        requires
            cursor_fits(old(reader).source()),
        ensures
            Self::read_ref_spec(old(reader).source(), r, final(reader).source()),
    ;
}

/// A value that is rebuilt from what a bytewise reader finds.
pub trait BytewiseReadOwned: Sized {
    /// Whether reading at cursor `c` may give `result` and leave the reader
    /// at `rest`. With `exclusive` set, what the value refers to is taken to
    /// be writable.
    spec fn read_spec(
        c: Cursor,
        exclusive: bool,
        result: Result<Self, BytewiseError>,
        rest: Cursor,
    ) -> bool;

    /// Reads a value whose referents are shared.
    fn read_from<R: BytewiseReader>(reader: &mut R) -> (r: Result<Self, BytewiseError>)
        requires
            cursor_fits(old(reader).source()),
        ensures
            Self::read_spec(old(reader).source(), false, r, final(reader).source()),
    ;

    /// Reads a value whose referents are exclusive.
    fn read_from_mut<R: BytewiseReader>(reader: &mut R) -> (r: Result<Self, BytewiseError>)
        requires
            cursor_fits(old(reader).source()),
        ensures
            Self::read_spec(old(reader).source(), true, r, final(reader).source()),
    ;
}

} // verus!

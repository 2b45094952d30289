//! A byte buffer with a read and a write position.

use crate::ipc::bytes::copy_into;
use crate::ipc::bytewise::{
    padding_spec, write_step, BytewiseError, BytewiseReader, BytewiseWriter, Cursor, RawRead,
    ReadItem, DANGLING_ADDRESS,
};
use vstd::arithmetic::power2::is_pow2;
use vstd::prelude::*;

verus! {

/// The address of the first byte of `buf`, from `<[u8]>::as_ptr`. A slice
/// never wraps around the end of the address space; nothing else is known of
/// where it lies.
#[verifier::external_body]
fn address_of(buf: &[u8]) -> (addr: usize)
    ensures
        addr + buf@.len() <= usize::MAX,
{
    buf.as_ptr() as usize
}

/// Whether `n` is a power of two.
pub fn is_power_of_two(n: usize) -> (r: bool)
    ensures
        r == is_pow2(n as int),
{
    proof {
        reveal(is_pow2);
    }
    if n == 0 {
        return false;
    }
    let mut m = n;
    while m % 2 == 0
        invariant
            m > 0,
            is_pow2(m as int) == is_pow2(n as int),
        decreases m,
    {
        proof {
            reveal(is_pow2);
        }
        m = m / 2;
    }
    proof {
        reveal(is_pow2);
    }
    m == 1
}

/// A power of two is positive.
pub proof fn lemma_pow2_positive(n: int)
    requires
        is_pow2(n),
    ensures
        n > 0,
{
    reveal(is_pow2);
}

/// The padding is less than the alignment and leads to a multiple of it.
pub proof fn lemma_padding_bounds(addr: int, align: int)
    requires
        0 <= addr,
        0 < align,
    ensures
        0 <= padding_spec(addr, align) < align,
        (addr + padding_spec(addr, align)) % align == 0,
{
    let rem = addr % align;
    vstd::arithmetic::div_mod::lemma_fundamental_div_mod(addr, align);
    if rem == 0 {
        vstd::arithmetic::div_mod::lemma_mod_self_0(align);
    } else {
        vstd::arithmetic::div_mod::lemma_small_mod((align - rem) as nat, align as nat);
        assert(addr + (align - rem) == align * (addr / align + 1)) by (nonlinear_arith)
            requires
                addr == align * (addr / align) + rem,
        ;
        vstd::arithmetic::div_mod::lemma_mod_multiples_basic(addr / align + 1, align);
        assert(align * (addr / align + 1) == (addr / align + 1) * align) by (nonlinear_arith);
    }
}

/// Number of bytes to skip from `addr` to the next multiple of `align`.
pub fn padding_for(addr: usize, align: usize) -> (padding: usize)
    requires
        align > 0,
    ensures
        padding == padding_spec(addr as int, align as int),
        padding < align,
        (addr + padding) % (align as int) == 0,
{
    let rem = addr % align;
    proof {
        lemma_padding_bounds(addr as int, align as int);
        if rem == 0 {
            vstd::arithmetic::div_mod::lemma_mod_self_0(align as int);
        } else {
            vstd::arithmetic::div_mod::lemma_small_mod((align - rem) as nat, align as nat);
        }
    }
    if rem == 0 {
        0
    } else {
        align - rem
    }
}

/// A byte buffer that is taken to lie at a known address, with a read and a
/// write position.
pub struct BytewiseBuffer {
    buf: Vec<u8>,
    base: usize,
    read: usize,
    write: usize,
}

impl BytewiseBuffer {
    /// The buffer ends inside the address space.
    pub open spec fn fits(&self) -> bool {
        self.base() + self.bytes().len() <= usize::MAX
    }

    /// The bytes of the buffer.
    pub closed spec fn bytes(&self) -> Seq<u8> {
        self.buf@
    }

    /// The address at which the buffer is taken to lie.
    pub closed spec fn base(&self) -> usize {
        self.base
    }

    /// The read position.
    pub closed spec fn read_pos(&self) -> usize {
        self.read
    }

    /// The write position.
    pub closed spec fn write_pos(&self) -> usize {
        self.write
    }

    /// A buffer over `buf`, at the address at which `buf` lies in memory,
    /// with both positions at the start.
    pub fn new(buf: Vec<u8>) -> (buffer: BytewiseBuffer)
        ensures
            buffer.bytes() == buf@,
            buffer.read_pos() == 0,
            buffer.write_pos() == 0,
            buffer.fits(),
    {
        let base = address_of(buf.as_slice());
        BytewiseBuffer { buf, base, read: 0, write: 0 }
    }

    /// A buffer over `buf`, at the address at which `buf` lies in memory,
    /// with the positions given.
    pub fn with_offset(buf: Vec<u8>, read: usize, write: usize) -> (buffer: BytewiseBuffer)
        ensures
            buffer.bytes() == buf@,
            buffer.read_pos() == read,
            buffer.write_pos() == write,
            buffer.fits(),
    {
        let base = address_of(buf.as_slice());
        BytewiseBuffer { buf, base, read, write }
    }

    /// A buffer over `buf` that is taken to lie at address `base`, with the
    /// positions given.
    pub fn at_address(buf: Vec<u8>, base: usize, read: usize, write: usize) -> (buffer:
        BytewiseBuffer)
        requires
            base + buf@.len() <= usize::MAX,
        ensures
            buffer.bytes() == buf@,
            buffer.base() == base,
            buffer.read_pos() == read,
            buffer.write_pos() == write,
            buffer.fits(),
    {
        BytewiseBuffer { buf, base, read, write }
    }

    /// The address at which the buffer is taken to lie.
    pub fn address(&self) -> (base: usize)
        ensures
            base == self.base(),
    {
        self.base
    }

    /// The bytes of the buffer.
    pub fn as_slice(&self) -> (bytes: &[u8])
        ensures
            bytes@ == self.bytes(),
    {
        self.buf.as_slice()
    }

    /// Gives the bytes back.
    pub fn into_inner(self) -> (buf: Vec<u8>)
        ensures
            buf@ == self.bytes(),
    {
        self.buf
    }

    /// Writes `src` at the write position; see `write_step`.
    fn write_bytes(&mut self, origin: Option<usize>, src: &[u8], align: usize) -> (r: Result<
        (),
        BytewiseError,
    >)
        requires
            old(self).fits(),
        ensures
            match write_step(old(self).sink(), origin, src@, align) {
                Ok(next) => r is Ok && final(self).sink() == next,
                Err(e) => r == Err::<(), BytewiseError>(e) && final(self).sink() == old(
                    self,
                ).sink(),
            },
            final(self).read_pos() == old(self).read_pos(),
    {
        let size = src.len();
        if size == 0 {
            return Ok(());
        }
        if !is_power_of_two(align) {
            return Err(BytewiseError::InvalidAlignment { align });
        }
        let buf_len = self.buf.len();
        if self.write > buf_len {
            return Err(
                BytewiseError::InsufficientBuffer {
                    required: self.write.saturating_add(1),
                    capacity: buf_len,
                },
            );
        }
        proof {
            lemma_pow2_positive(align as int);
        }
        let padding = padding_for(self.base + self.write, align);
        let total = padding.saturating_add(size);
        if total > buf_len - self.write || total - padding != size {
            return Err(
                BytewiseError::InsufficientBuffer {
                    required: self.write.saturating_add(total),
                    capacity: buf_len,
                },
            );
        }
        let at = self.write + padding;
        match origin {
            Some(src_start) => {
                let dst_start = self.base + at;
                let dst_end = dst_start.saturating_add(size);
                let src_end = src_start.saturating_add(size);
                if src_start < dst_end && src_end > dst_start {
                    return Err(BytewiseError::IllegalOverlappingCopy);
                }
            },
            None => {},
        }
        copy_into(self.buf.as_mut_slice(), at, src);
        self.write = self.write + total;
        Ok(())
    }
}

impl BytewiseReader for BytewiseBuffer {
    open spec fn source(&self) -> Cursor {
        Cursor { bytes: self.bytes(), base: self.base(), pos: self.read_pos() }
    }

    fn read_bytes(&self) -> (n: usize) {
        self.read
    }

    fn remaining_bytes(&self) -> (n: usize) {
        let total = self.buf.len();
        if self.read <= total {
            total - self.read
        } else {
            0
        }
    }

    fn read_raw(&mut self, size: usize, align: usize) -> (r: Result<RawRead, BytewiseError>)
        ensures
            final(self).bytes() == old(self).bytes(),
            final(self).base() == old(self).base(),
            final(self).write_pos() == old(self).write_pos(),
    {
        if size == 0 {
            return Ok(RawRead { addr: DANGLING_ADDRESS, offset: self.read });
        }
        if !is_power_of_two(align) {
            return Err(BytewiseError::InvalidAlignment { align });
        }
        let buf_len = self.buf.len();
        if self.read > buf_len {
            return Err(BytewiseError::InsufficientBuffer { required: size, capacity: 0 });
        }
        proof {
            lemma_pow2_positive(align as int);
        }
        let padding = padding_for(self.base + self.read, align);
        let total = padding.saturating_add(size);
        let rest = buf_len - self.read;
        if total > rest || total - padding != size {
            return Err(BytewiseError::InsufficientBuffer { required: total, capacity: rest });
        }
        let offset = self.read + padding;
        self.read = self.read + total;
        Ok(RawRead { addr: self.base + offset, offset })
    }

    fn read_ref(&mut self, size: usize, align: usize) -> (r: Result<ReadItem, BytewiseError>)
        ensures
            final(self).bytes() == old(self).bytes(),
            final(self).base() == old(self).base(),
            final(self).write_pos() == old(self).write_pos(),
    {
        let raw = self.read_raw(size, align)?;
        if size == 0 {
            return Ok(ReadItem { addr: raw.addr, bytes: Vec::new() });
        }
        proof {
            lemma_pow2_positive(align as int);
            lemma_padding_bounds(old(self).base + old(self).read, align as int);
        }
        let buf_len = self.buf.len();
        let bytes = vstd::slice::slice_to_vec(&self.buf.as_slice()[raw.offset..raw.offset + size]);
        Ok(ReadItem { addr: raw.addr, bytes })
    }

    fn read_mut(&mut self, size: usize, align: usize) -> (r: Result<ReadItem, BytewiseError>)
        ensures
            final(self).bytes() == old(self).bytes(),
            final(self).base() == old(self).base(),
            final(self).write_pos() == old(self).write_pos(),
    {
        self.read_ref(size, align)
    }
}

impl BytewiseWriter for BytewiseBuffer {
    open spec fn sink(&self) -> Cursor {
        Cursor { bytes: self.bytes(), base: self.base(), pos: self.write_pos() }
    }

    fn written_bytes(&self) -> (n: usize) {
        self.write
    }

    fn write_raw(&mut self, src_addr: usize, src: &[u8], align: usize) -> (r: Result<
        (),
        BytewiseError,
    >)
        ensures
            final(self).read_pos() == old(self).read_pos(),
    {
        self.write_bytes(Some(src_addr), src, align)
    }

    fn write_ref(&mut self, src: &[u8], align: usize) -> (r: Result<(), BytewiseError>)
        ensures
            final(self).read_pos() == old(self).read_pos(),
    {
        self.write_bytes(None, src, align)
    }
}

} // verus!

//! Transports: how frames get from one peer to the other.
//!
//! A transport makes endpoints; an endpoint hands out buffers. A write buffer
//! is memory that the peer will read once a number of its bytes has been
//! submitted; a read buffer holds bytes that the peer has submitted, until
//! a number of them has been consumed.

use vstd::prelude::*;

pub mod shmem;

verus! {

/// The memory behind a buffer: the address of its first byte, and its bytes.
pub struct Region {
    pub addr: usize,
    pub bytes: Seq<u8>,
}

/// A region ends inside the address space.
pub open spec fn region_fits(region: Region) -> bool {
    region.addr + region.bytes.len() <= usize::MAX
}

/// A buffer of bytes that were received.
pub trait ReadBuf: Sized {
    /// The error that the endpoint reports.
    type Error;

    /// The memory behind the buffer.
    spec fn region(&self) -> Region;

    /// The address of the first byte.
    fn address(&self) -> (addr: usize)
        ensures
            addr == self.region().addr,
            region_fits(self.region()),
    ;

    /// The bytes that can be read.
    fn as_slice(&self) -> (bytes: &[u8])
        ensures
            bytes@ == self.region().bytes,
    ;

    /// Gives the buffer back; the first `bytes` bytes are done with.
    fn consume(self, bytes: usize) -> (r: Result<(), Self::Error>);
}

/// A buffer for bytes to send.
pub trait WriteBuf: Sized {
    /// The error that the endpoint reports.
    type Error;

    /// The memory behind the buffer.
    spec fn region(&self) -> Region;

    /// The address of the first byte.
    fn address(&self) -> (addr: usize)
        ensures
            addr == self.region().addr,
            region_fits(self.region()),
    ;

    /// The bytes that can be written.
    fn as_mut_slice(&mut self) -> (bytes: &mut [u8])
        ensures
            bytes@ == old(self).region().bytes,
            final(self).region().bytes == final(bytes)@,
            final(self).region().addr == old(self).region().addr,
    ;

    /// Gives the buffer back; the first `bytes` bytes are sent.
    fn submit(self, bytes: usize) -> (r: Result<(), Self::Error>);
}

/// One end of a connection.
pub trait Endpoint {
    /// The error that the endpoint reports.
    type Error;

    /// The read buffer of this endpoint.
    type ReadBuf<'a>: ReadBuf<Error = Self::Error> where Self: 'a;

    /// The write buffer of this endpoint.
    type WriteBuf<'a>: WriteBuf<Error = Self::Error> where Self: 'a;

    /// Waits until bytes have arrived, and hands them out.
    fn read(&mut self) -> (r: Result<Self::ReadBuf<'_>, Self::Error>);

    /// Waits until there is room to write, and hands it out.
    fn write(&mut self) -> (r: Result<Self::WriteBuf<'_>, Self::Error>);
}

/// Makes endpoints.
pub trait Transport {
    /// What names a connection.
    type Address: ?Sized;

    /// The error that the transport reports.
    type Error;

    /// The endpoint that the transport makes.
    type Endpoint: Endpoint<Error = Self::Error>;

    /// Makes the connection named `addr` and returns its creating end.
    fn create(&self, addr: &Self::Address) -> (r: Result<Self::Endpoint, Self::Error>);

    /// Connects to the connection named `addr` and returns its connecting
    /// end.
    fn connect(&self, addr: &Self::Address) -> (r: Result<Self::Endpoint, Self::Error>);
}

} // verus!

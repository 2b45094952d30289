//! Length-prefixed, checksummed frames.
//!
//! A framer turns a byte buffer into the place where one frame is built, and
//! finds the first frame in a buffer that was received.

use vstd::prelude::*;

pub mod header;
pub mod length_prefix_framer;

pub use length_prefix_framer::{
    LengthPrefixFrame, LengthPrefixFrameBuffer, LengthPrefixFramer, LengthPrefixFramerError,
};

verus! {

/// A frame that was found in a buffer.
pub trait Frame {
    /// The payload of the frame.
    spec fn payload_spec(&self) -> Seq<u8>;

    /// Length of the whole frame, capped at `usize::MAX`.
    spec fn frame_len_spec(&self) -> usize;

    /// Length of the whole frame: what the reader has to consume.
    fn frame_len(&self) -> (n: usize)
        ensures
            n == self.frame_len_spec(),
    ;

    /// The payload of the frame.
    fn payload(&self) -> (p: &[u8])
        ensures
            p@ == self.payload_spec(),
    ;
}

/// A buffer in which a frame is being built: the payload is written first,
/// then `finalize` fills in what surrounds it.
pub trait FrameBuf: Sized {
    /// The error that `finalize` reports.
    type Error;

    /// The room that the buffer offers for the payload.
    spec fn capacity_spec(&self) -> nat;

    /// What `finalize` returns for a payload of `payload_len` bytes.
    spec fn finalize_spec(&self, payload_len: usize) -> Result<usize, Self::Error>;

    /// Completes the frame around the first `payload_len` bytes of the
    /// payload region and returns the frame's length.
    fn finalize(self, payload_len: usize) -> (r: Result<usize, Self::Error>)
        ensures
            r == self.finalize_spec(payload_len),
    ;
}

/// Builds and finds frames.
pub trait Framer {
    /// The error that building or finding a frame reports.
    type Error;

    /// The buffer in which this framer builds a frame.
    type Buf<'a>: FrameBuf<Error = Self::Error> where Self: 'a;

    /// The frame that this framer finds.
    type Found<'a>: Frame where Self: 'a;

    /// What `decode_frame` finds at the start of `buf`.
    spec fn decode_frame_spec(&self, buf: Seq<u8>) -> Result<Option<(usize, Seq<u8>)>, Self::Error>;

    /// Starts a frame in `buf`.
    fn encode_frame<'a>(&self, buf: &'a mut [u8]) -> (frame: Self::Buf<'a>)
        ensures
            frame.capacity_spec() == if old(buf)@.len() >= header::FRAME_HEADER_LEN {
                old(buf)@.len() - header::FRAME_HEADER_LEN
            } else {
                0
            },
    ;

    /// Looks for a frame at the start of `buf`.
    fn decode_frame<'a>(&self, buf: &'a [u8]) -> (r: Result<Option<Self::Found<'a>>, Self::Error>)
        ensures
            match self.decode_frame_spec(buf@) {
                Ok(Some((frame_len, payload))) => r matches Ok(Some(frame))
                    && frame.frame_len_spec() == frame_len && frame.payload_spec() == payload,
                Ok(None) => r matches Ok(None),
                Err(error) => r matches Err(e) && e == error,
            },
    ;
}

} // verus!

//! The framer of this fabric: magic number, payload length, CRC32.

use crate::ipc::bytes::{copy_into, overwrite};
use crate::ipc::framer::header::{
    checked_frame_len, clamp_len, decode, decode_spec, frame_bytes, frame_len_spec, header_bytes,
    make_header, FrameFault, DEFAULT_MAX_FRAME_LEN, FRAME_HEADER_LEN, MAX_FRAME_LEN,
};
use crate::ipc::framer::{Frame, FrameBuf, Framer};
use vstd::prelude::*;

verus! {

/// Errors of the length-prefix framer.
#[allow(inconsistent_fields)]
#[derive(Clone, Copy, Debug, PartialEq, Eq, Structural)]
pub enum LengthPrefixFramerError {
    /// The buffer cannot hold the frame.
    InsufficientBuffer { required: usize, capacity: usize },
    /// The header does not lie at an address that its alignment admits. The
    /// header is read byte by byte, so no buffer fails on this account.
    UnalignedHeader { align: usize },
    /// The header holds a value that no header can hold. Every 12 bytes are
    /// a header, so no buffer fails on this account.
    InvalidHeader,
    /// The buffer does not start with the magic number.
    MagicNumberMismatch { expected: u32, actual: u32 },
    /// The frame is longer than the framer's limit.
    FrameTooLarge { limit: usize, actual: usize },
    /// The stored checksum is not that of length and payload.
    ChecksumMismatch { expected: u32, actual: u32 },
}

/// The framer's error for a fault of the frame format.
pub open spec fn framer_error(fault: FrameFault) -> LengthPrefixFramerError {
    match fault {
        FrameFault::MagicNumberMismatch { expected, actual } => {
            LengthPrefixFramerError::MagicNumberMismatch { expected, actual }
        },
        FrameFault::FrameTooLarge { limit, actual } => LengthPrefixFramerError::FrameTooLarge {
            limit,
            actual,
        },
        FrameFault::ChecksumMismatch { expected, actual } => {
            LengthPrefixFramerError::ChecksumMismatch { expected, actual }
        },
    }
}

impl LengthPrefixFramerError {
    /// The framer's error for a fault of the frame format.
    pub fn from_fault(fault: FrameFault) -> (error: LengthPrefixFramerError)
        ensures
            error == framer_error(fault),
    {
        match fault {
            FrameFault::MagicNumberMismatch { expected, actual } => {
                LengthPrefixFramerError::MagicNumberMismatch { expected, actual }
            },
            FrameFault::FrameTooLarge { limit, actual } => LengthPrefixFramerError::FrameTooLarge {
                limit,
                actual,
            },
            FrameFault::ChecksumMismatch { expected, actual } => {
                LengthPrefixFramerError::ChecksumMismatch { expected, actual }
            },
        }
    }
}

/// `limit`, lowered to the largest frame length that the length field can
/// express.
pub open spec fn effective_limit(limit: usize) -> usize {
    if limit > MAX_FRAME_LEN {
        MAX_FRAME_LEN
    } else {
        limit
    }
}

/// `limit`, lowered to the largest frame length that the length field can
/// express.
pub fn cap_limit(limit: usize) -> (capped: usize)
    ensures
        capped == effective_limit(limit),
{
    if limit > MAX_FRAME_LEN {
        MAX_FRAME_LEN
    } else {
        limit
    }
}

/// A frame that was found in a buffer: its payload, borrowed from the buffer.
#[derive(Debug)]
pub struct LengthPrefixFrame<'a> {
    pub payload: &'a [u8],
}

impl<'a> Frame for LengthPrefixFrame<'a> {
    open spec fn payload_spec(&self) -> Seq<u8> {
        self.payload@
    }

    open spec fn frame_len_spec(&self) -> usize {
        clamp_len(FRAME_HEADER_LEN + self.payload@.len())
    }

    fn frame_len(&self) -> (n: usize) {
        FRAME_HEADER_LEN.saturating_add(self.payload.len())
    }

    fn payload(&self) -> (p: &[u8]) {
        self.payload
    }
}

/// A buffer in which a frame is being built. The first 12 bytes are kept for
/// the header; the payload is written behind them.
pub struct LengthPrefixFrameBuffer<'a> {
    pub buffer: &'a mut [u8],
    pub limit: usize,
}

/// What finalizing a buffer of `capacity` bytes returns for a payload of
/// `payload_len` bytes, under the given limit.
pub open spec fn finalize_result(limit: usize, capacity: nat, payload_len: usize) -> Result<
    usize,
    LengthPrefixFramerError,
> {
    match frame_len_spec(effective_limit(limit), payload_len) {
        Err(fault) => Err(framer_error(fault)),
        Ok(frame_len) => if frame_len > capacity {
            Err(
                LengthPrefixFramerError::InsufficientBuffer {
                    required: frame_len,
                    capacity: capacity as usize,
                },
            )
        } else {
            Ok(frame_len)
        },
    }
}

impl<'a> LengthPrefixFrameBuffer<'a> {
    /// The region behind the header, in which the payload is written.
    pub fn payload_mut(&mut self) -> (region: &mut [u8])
        requires
            old(self).buffer@.len() >= FRAME_HEADER_LEN,
        ensures
            region@ == old(self).buffer@.subrange(
                FRAME_HEADER_LEN as int,
                old(self).buffer@.len() as int,
            ),
            final(self).buffer@ == old(self).buffer@.subrange(0, FRAME_HEADER_LEN as int)
                + final(region)@,
            final(self).limit == old(self).limit,
            final(final(self).buffer)@ == final(old(self).buffer)@,
    {
        let total = self.buffer.len();
        let (header, region) = self.buffer.split_at_mut(FRAME_HEADER_LEN);
        region
    }

    /// The bytes of the whole buffer, header region included.
    pub open spec fn bytes(&self) -> Seq<u8> {
        self.buffer@
    }

    /// The region behind the header.
    pub fn payload(&self) -> (region: &[u8])
        requires
            self.bytes().len() >= FRAME_HEADER_LEN,
        ensures
            region@ == self.bytes().subrange(FRAME_HEADER_LEN as int, self.bytes().len() as int),
    {
        let total = self.buffer.len();
        &self.buffer[FRAME_HEADER_LEN..total]
    }
}

impl<'a> FrameBuf for LengthPrefixFrameBuffer<'a> {
    type Error = LengthPrefixFramerError;

    open spec fn capacity_spec(&self) -> nat {
        if self.buffer@.len() >= FRAME_HEADER_LEN {
            (self.buffer@.len() - FRAME_HEADER_LEN) as nat
        } else {
            0
        }
    }

    open spec fn finalize_spec(&self, payload_len: usize) -> Result<usize, LengthPrefixFramerError> {
        finalize_result(self.limit, self.buffer@.len(), payload_len)
    }

    /// Fills in the header for the first `payload_len` bytes behind it. On
    /// success the buffer starts with the frame around those bytes; on failure
    /// the buffer is left as it was.
    fn finalize(self, payload_len: usize) -> (r: Result<usize, LengthPrefixFramerError>)
        ensures
            r is Ok ==> final(self.buffer)@ == overwrite(
                old(self.buffer)@,
                0,
                frame_bytes(
                    old(self.buffer)@.subrange(FRAME_HEADER_LEN as int, r->Ok_0 as int),
                ),
            ),
            r is Ok ==> r->Ok_0 == FRAME_HEADER_LEN + payload_len,
            r is Err ==> final(self.buffer)@ == old(self.buffer)@,
    {
        let capacity = self.buffer.len();
        let frame_len = match checked_frame_len(cap_limit(self.limit), payload_len) {
            Ok(frame_len) => frame_len,
            Err(fault) => {
                return Err(LengthPrefixFramerError::from_fault(fault));
            },
        };
        if frame_len > capacity {
            return Err(
                LengthPrefixFramerError::InsufficientBuffer { required: frame_len, capacity },
            );
        }
        let header = make_header(&self.buffer[FRAME_HEADER_LEN..frame_len]);
        copy_into(self.buffer, 0, header.as_slice());
        proof {
            let before = old(self.buffer)@;
            let payload = before.subrange(FRAME_HEADER_LEN as int, frame_len as int);
            assert(overwrite(before, 0, header_bytes(payload)) =~= overwrite(
                before,
                0,
                frame_bytes(payload),
            ));
        }
        Ok(frame_len)
    }
}

/// The length-prefix framer, for frames of at most `limit` bytes.
#[derive(Clone, Copy, Debug)]
pub struct LengthPrefixFramer {
    limit: usize,
}

/// What a framer with the given limit finds at the start of `buf`.
pub open spec fn framer_decode_spec(limit: usize, buf: Seq<u8>) -> Result<
    Option<(usize, Seq<u8>)>,
    LengthPrefixFramerError,
> {
    match decode_spec(limit, buf) {
        Ok(found) => Ok(found),
        Err(fault) => Err(framer_error(fault)),
    }
}

impl LengthPrefixFramer {
    #[verifier::type_invariant]
    spec fn inv(self) -> bool {
        FRAME_HEADER_LEN <= self.limit <= MAX_FRAME_LEN
    }

    /// The largest frame that the framer accepts, header included.
    pub closed spec fn limit_spec(&self) -> usize {
        self.limit
    }

    /// A framer for frames of at most `limit` bytes. The limit admits at
    /// least an empty frame; a limit beyond what the length field can express
    /// is lowered to that bound.
    pub fn new(limit: usize) -> (framer: LengthPrefixFramer)
        requires
            limit >= FRAME_HEADER_LEN,
        ensures
            framer.limit_spec() == effective_limit(limit),
    {
        LengthPrefixFramer { limit: cap_limit(limit) }
    }

    /// The largest frame that the framer accepts, header included.
    pub fn limit(&self) -> (limit: usize)
        ensures
            limit == self.limit_spec(),
            FRAME_HEADER_LEN <= limit <= MAX_FRAME_LEN,
    {
        proof {
            use_type_invariant(self);
        }
        self.limit
    }
}

impl Framer for LengthPrefixFramer {
    type Error = LengthPrefixFramerError;

    type Buf<'a> = LengthPrefixFrameBuffer<'a>;

    type Found<'a> = LengthPrefixFrame<'a>;

    open spec fn decode_frame_spec(&self, buf: Seq<u8>) -> Result<
        Option<(usize, Seq<u8>)>,
        LengthPrefixFramerError,
    > {
        framer_decode_spec(self.limit_spec(), buf)
    }

    /// Starts a frame in `buf`: the buffer is handed on unchanged, to be
    /// filled behind the header and then finalized.
    fn encode_frame<'a>(&self, buf: &'a mut [u8]) -> (frame: LengthPrefixFrameBuffer<'a>)
        ensures
            frame.buffer@ == old(buf)@,
            frame.limit == self.limit_spec(),
            final(buf)@ == final(frame.buffer)@,
    {
        LengthPrefixFrameBuffer { buffer: buf, limit: self.limit }
    }

    /// Looks for a frame at the start of `buf`: `None` while the buffer
    /// holds less than a whole frame, else the frame found.
    fn decode_frame<'a>(&self, buf: &'a [u8]) -> (r: Result<
        Option<LengthPrefixFrame<'a>>,
        LengthPrefixFramerError,
    >) {
        proof {
            use_type_invariant(self);
        }
        match decode(self.limit, buf) {
            Ok(Some((frame_len, payload))) => Ok(Some(LengthPrefixFrame { payload })),
            Ok(None) => Ok(None),
            Err(fault) => Err(LengthPrefixFramerError::from_fault(fault)),
        }
    }
}

impl Default for LengthPrefixFramer {
    /// A framer with the default limit of 16 MiB.
    fn default() -> (framer: LengthPrefixFramer)
        ensures
            framer.limit_spec() == DEFAULT_MAX_FRAME_LEN,
    {
        LengthPrefixFramer::new(DEFAULT_MAX_FRAME_LEN)
    }
}

} // verus!

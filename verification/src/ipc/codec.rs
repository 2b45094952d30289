//! A frame codec over caller-provided buffers.
//!
//! The caller splits a buffer into header and payload region with
//! `prepare_buffer`, writes the payload, and has the header filled in by
//! `encode_frame`. `decode_frame` finds the first frame in a buffer.

use crate::ipc::bytes::{copy_into, overwrite};
use crate::ipc::framer::header::{
    checked_frame_len, decode, decode_spec, frame_len_spec, header_bytes, make_header, FrameFault,
    DEFAULT_MAX_FRAME_LEN, FRAME_HEADER_LEN, MAX_FRAME_LEN,
};
use vstd::prelude::*;

verus! {

/// Errors of the frame codec.
#[allow(inconsistent_fields)]
#[derive(Clone, Copy, Debug, PartialEq, Eq, Structural)]
pub enum FrameCodecError {
    /// The buffer cannot hold what has to be written.
    InsufficientBuffer { required: usize, capacity: usize },
    /// The header does not lie at an address that its alignment admits. The
    /// header is read byte by byte, so no buffer fails on this account.
    UnalignedHeader { alignment: usize },
    /// The header holds a value that no header can hold. Every 12 bytes are
    /// a header, so no buffer fails on this account.
    InvalidHeader,
    /// The buffer does not start with the magic number.
    MagicNumberMismatch { expected: u32, actual: u32 },
    /// The frame is longer than the codec's limit.
    FrameTooLarge { limit: usize, actual: usize },
    /// The stored checksum is not that of length and payload.
    ChecksumMismatch { expected: u32, actual: u32 },
}

/// The codec's error for a fault of the frame format.
pub open spec fn codec_error(fault: FrameFault) -> FrameCodecError {
    match fault {
        FrameFault::MagicNumberMismatch { expected, actual } => FrameCodecError::MagicNumberMismatch {
            expected,
            actual,
        },
        FrameFault::FrameTooLarge { limit, actual } => FrameCodecError::FrameTooLarge {
            limit,
            actual,
        },
        FrameFault::ChecksumMismatch { expected, actual } => FrameCodecError::ChecksumMismatch {
            expected,
            actual,
        },
    }
}

impl FrameCodecError {
    /// The codec's error for a fault of the frame format.
    pub fn from_fault(fault: FrameFault) -> (error: FrameCodecError)
        ensures
            error == codec_error(fault),
    {
        match fault {
            FrameFault::MagicNumberMismatch { expected, actual } => {
                FrameCodecError::MagicNumberMismatch { expected, actual }
            },
            FrameFault::FrameTooLarge { limit, actual } => FrameCodecError::FrameTooLarge {
                limit,
                actual,
            },
            FrameFault::ChecksumMismatch { expected, actual } => FrameCodecError::ChecksumMismatch {
                expected,
                actual,
            },
        }
    }
}

/// Encodes and decodes frames of at most `limit` bytes.
#[derive(Clone, Copy, Debug)]
pub struct FrameCodec {
    limit: usize,
}

/// What `FrameCodec::decode_frame` returns, with the payload as a sequence
/// of bytes.
pub open spec fn codec_decoded_view(r: Result<Option<(usize, &[u8])>, FrameCodecError>) -> Result<
    Option<(usize, Seq<u8>)>,
    FrameCodecError,
> {
    match r {
        Ok(Some((frame_len, payload))) => Ok(Some((frame_len, payload@))),
        Ok(None) => Ok(None),
        Err(error) => Err(error),
    }
}

/// What a codec with the given limit finds at the start of `buf`.
pub open spec fn codec_decode_spec(limit: usize, buf: Seq<u8>) -> Result<
    Option<(usize, Seq<u8>)>,
    FrameCodecError,
> {
    match decode_spec(limit, buf) {
        Ok(found) => Ok(found),
        Err(fault) => Err(codec_error(fault)),
    }
}

impl FrameCodec {
    #[verifier::type_invariant]
    spec fn inv(self) -> bool {
        FRAME_HEADER_LEN <= self.limit <= MAX_FRAME_LEN
    }

    /// The largest frame that the codec accepts, header included.
    pub closed spec fn limit_spec(&self) -> usize {
        self.limit
    }

    /// A codec for frames of at most `limit` bytes. The limit admits at
    /// least an empty frame and at most what the length field can express.
    pub fn new(limit: usize) -> (codec: FrameCodec)
        requires
            FRAME_HEADER_LEN <= limit <= MAX_FRAME_LEN,
        ensures
            codec.limit_spec() == limit,
    {
        FrameCodec { limit }
    }

    /// The largest frame that the codec accepts, header included.
    pub fn limit(&self) -> (limit: usize)
        ensures
            limit == self.limit_spec(),
            FRAME_HEADER_LEN <= limit <= MAX_FRAME_LEN,
    {
        proof {
            use_type_invariant(self);
        }
        self.limit
    }

    /// Length of the header that precedes every payload.
    pub fn header_len(&self) -> (n: usize)
        ensures
            n == FRAME_HEADER_LEN,
    {
        FRAME_HEADER_LEN
    }

    /// Splits `buff` into the header region and the region for the payload.
    pub fn prepare_buffer<'a>(&self, buff: &'a mut [u8]) -> (r: Result<
        (&'a mut [u8], &'a mut [u8]),
        FrameCodecError,
    >)
        ensures
            old(buff)@.len() < FRAME_HEADER_LEN ==> r == Err::<
                (&'a mut [u8], &'a mut [u8]),
                FrameCodecError,
            >(
                FrameCodecError::InsufficientBuffer {
                    required: FRAME_HEADER_LEN,
                    capacity: old(buff)@.len() as usize,
                },
            ) && final(buff)@ == old(buff)@,
            old(buff)@.len() >= FRAME_HEADER_LEN ==> r is Ok && r->Ok_0.0@ == old(buff)@.subrange(
                0,
                FRAME_HEADER_LEN as int,
            ) && r->Ok_0.1@ == old(buff)@.subrange(
                FRAME_HEADER_LEN as int,
                old(buff)@.len() as int,
            ) && final(buff)@ == final(r->Ok_0.0)@ + final(r->Ok_0.1)@,
    {
        let buff_len = buff.len();
        if buff_len < FRAME_HEADER_LEN {
            return Err(
                FrameCodecError::InsufficientBuffer {
                    required: FRAME_HEADER_LEN,
                    capacity: buff_len,
                },
            );
        }
        Ok(buff.split_at_mut(FRAME_HEADER_LEN))
    }

    /// Writes the header of the frame around `payload` to the start of `buf`
    /// and returns the length of the frame.
    pub fn encode_frame(&self, buf: &mut [u8], payload: &[u8]) -> (r: Result<usize, FrameCodecError>)
        ensures
            match frame_len_spec(self.limit_spec(), payload@.len() as usize) {
                Err(fault) => r == Err::<usize, FrameCodecError>(codec_error(fault)) && final(buf)@
                    == old(buf)@,
                Ok(frame_len) => if old(buf)@.len() < FRAME_HEADER_LEN {
                    r == Err::<usize, FrameCodecError>(
                        FrameCodecError::InsufficientBuffer {
                            required: FRAME_HEADER_LEN,
                            capacity: old(buf)@.len() as usize,
                        },
                    ) && final(buf)@ == old(buf)@
                } else {
                    r == Ok::<usize, FrameCodecError>(frame_len) && final(buf)@ == overwrite(
                        old(buf)@,
                        0,
                        header_bytes(payload@),
                    )
                },
            },
    {
        proof {
            use_type_invariant(self);
        }
        let frame_len = match checked_frame_len(self.limit, payload.len()) {
            Ok(frame_len) => frame_len,
            Err(fault) => {
                return Err(FrameCodecError::from_fault(fault));
            },
        };
        let capacity = buf.len();
        if capacity < FRAME_HEADER_LEN {
            return Err(
                FrameCodecError::InsufficientBuffer { required: FRAME_HEADER_LEN, capacity },
            );
        }
        let header = make_header(payload);
        copy_into(buf, 0, header.as_slice());
        Ok(frame_len)
    }

    /// Looks for a frame at the start of `buff`: `None` while the buffer
    /// holds less than a whole frame, else the frame's length and payload.
    pub fn decode_frame<'a>(&self, buff: &'a [u8]) -> (r: Result<
        Option<(usize, &'a [u8])>,
        FrameCodecError,
    >)
        ensures
            codec_decoded_view(r) == codec_decode_spec(self.limit_spec(), buff@),
    {
        match decode(self.limit, buff) {
            Ok(Some((frame_len, payload))) => Ok(Some((frame_len, payload))),
            Ok(None) => Ok(None),
            Err(fault) => Err(FrameCodecError::from_fault(fault)),
        }
    }
}

impl Default for FrameCodec {
    /// A codec with the default limit of 16 MiB.
    fn default() -> (codec: FrameCodec)
        ensures
            codec.limit_spec() == DEFAULT_MAX_FRAME_LEN,
    {
        FrameCodec::new(DEFAULT_MAX_FRAME_LEN)
    }
}

} // verus!

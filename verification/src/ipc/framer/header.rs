//! The frame header and the frame format.
//!
//! A frame is a 12-byte header followed by the payload. The header holds, as
//! little-endian `u32` values, the magic number, the payload length, and the
//! CRC32 checksum of the four length bytes followed by the payload.

use crate::ipc::bytes::read_u32_le;
use crate::ipc::checksum::{checksum_of_parts, crc32_of};
use vstd::bytes::*;
use vstd::prelude::*;

verus! {

/// The magic number that starts every frame: `xFME` in ASCII.
pub const FRAME_MAGIC_NUMBER: u32 = 0x78464D45;

/// Length of the frame header in bytes.
pub const FRAME_HEADER_LEN: usize = 12;

/// The frame length limit that a default framer enforces: 16 MiB.
pub const DEFAULT_MAX_FRAME_LEN: usize = 16777216;

/// The largest frame length that any framer accepts.
pub const MAX_FRAME_LEN: usize = 0xFFFF_FFFF;

/// Why a buffer does not start with a sound frame.
#[allow(inconsistent_fields)]
#[derive(Clone, Copy, Debug, PartialEq, Eq, Structural)]
pub enum FrameFault {
    /// The first four bytes are not the magic number.
    MagicNumberMismatch { expected: u32, actual: u32 },
    /// The frame would be longer than the limit.
    FrameTooLarge { limit: usize, actual: usize },
    /// The checksum in the header is not that of length and payload.
    ChecksumMismatch { expected: u32, actual: u32 },
}

/// The checksum that the header of a frame around `payload` carries.
pub open spec fn frame_checksum(payload: Seq<u8>) -> u32 {
    crc32_of(spec_u32_to_le_bytes(payload.len() as u32) + payload)
}

/// The header of a frame around `payload`.
pub open spec fn header_bytes(payload: Seq<u8>) -> Seq<u8> {
    spec_u32_to_le_bytes(FRAME_MAGIC_NUMBER) + spec_u32_to_le_bytes(payload.len() as u32)
        + spec_u32_to_le_bytes(frame_checksum(payload))
}

/// The frame around `payload`.
pub open spec fn frame_bytes(payload: Seq<u8>) -> Seq<u8> {
    header_bytes(payload) + payload
}

/// `n` as a `usize`, or `usize::MAX` where it does not fit.
pub open spec fn clamp_len(n: int) -> usize {
    if n > usize::MAX {
        usize::MAX
    } else {
        n as usize
    }
}

/// What a decoder with the given limit finds at the start of `buf`: a fault,
/// nothing yet (`None`) while the frame is incomplete, or the length of the
/// first frame and its payload.
pub open spec fn decode_spec(limit: usize, buf: Seq<u8>) -> Result<
    Option<(usize, Seq<u8>)>,
    FrameFault,
> {
    if buf.len() < FRAME_HEADER_LEN {
        Ok(None)
    } else {
        let magic = spec_u32_from_le_bytes(buf.subrange(0, 4));
        let length = spec_u32_from_le_bytes(buf.subrange(4, 8));
        let stored = spec_u32_from_le_bytes(buf.subrange(8, 12));
        let frame_len = FRAME_HEADER_LEN + length;
        if magic != FRAME_MAGIC_NUMBER {
            Err(FrameFault::MagicNumberMismatch { expected: FRAME_MAGIC_NUMBER, actual: magic })
        } else if frame_len > limit {
            Err(FrameFault::FrameTooLarge { limit, actual: clamp_len(frame_len) })
        } else if buf.len() < frame_len {
            Ok(None)
        } else {
            let payload = buf.subrange(FRAME_HEADER_LEN as int, frame_len);
            let actual = crc32_of(buf.subrange(4, 8) + payload);
            if actual != stored {
                Err(FrameFault::ChecksumMismatch { expected: stored, actual })
            } else {
                Ok(Some((frame_len as usize, payload)))
            }
        }
    }
}

/// What an encoder with the given limit makes of a payload of `payload_len`
/// bytes: the frame length, or the fault that the frame is too large.
pub open spec fn frame_len_spec(limit: usize, payload_len: usize) -> Result<usize, FrameFault> {
    if FRAME_HEADER_LEN + payload_len > limit {
        Err(FrameFault::FrameTooLarge { limit, actual: clamp_len(FRAME_HEADER_LEN + payload_len) })
    } else {
        Ok((FRAME_HEADER_LEN + payload_len) as usize)
    }
}

/// The length of the frame around `payload_len` bytes, if the limit admits it.
pub fn checked_frame_len(limit: usize, payload_len: usize) -> (r: Result<usize, FrameFault>)
    ensures
        r == frame_len_spec(limit, payload_len),
{
    match payload_len.checked_add(FRAME_HEADER_LEN) {
        Some(frame_len) => {
            if frame_len > limit {
                Err(FrameFault::FrameTooLarge { limit, actual: frame_len })
            } else {
                Ok(frame_len)
            }
        },
        None => Err(FrameFault::FrameTooLarge { limit, actual: usize::MAX }),
    }
}

/// The header of the frame around `payload`.
pub fn make_header(payload: &[u8]) -> (header: Vec<u8>)
    requires
        payload@.len() <= u32::MAX,
    ensures
        header@ == header_bytes(payload@),
        header@.len() == FRAME_HEADER_LEN,
{
    proof {
        lemma_auto_spec_u32_to_from_le_bytes();
    }
    let length = payload.len() as u32;
    let mut header = u32_to_le_bytes(FRAME_MAGIC_NUMBER);
    let length_field = u32_to_le_bytes(length);
    let sum = checksum_of_parts(length_field.as_slice(), payload);
    let sum_field = u32_to_le_bytes(sum);
    header.extend_from_slice(length_field.as_slice());
    header.extend_from_slice(sum_field.as_slice());
    header
}

/// Looks for a frame at the start of `buf`.
pub fn decode<'a>(limit: usize, buf: &'a [u8]) -> (r: Result<Option<(usize, &'a [u8])>, FrameFault>)
    ensures
        decoded_view(r) == decode_spec(limit, buf@),
{
    let buf_len = buf.len();
    if buf_len < FRAME_HEADER_LEN {
        return Ok(None);
    }
    let magic = read_u32_le(buf, 0);
    if magic != FRAME_MAGIC_NUMBER {
        return Err(FrameFault::MagicNumberMismatch { expected: FRAME_MAGIC_NUMBER, actual: magic });
    }
    let length = read_u32_le(buf, 4);
    let frame_len = match (length as usize).checked_add(FRAME_HEADER_LEN) {
        Some(frame_len) => frame_len,
        None => {
            return Err(FrameFault::FrameTooLarge { limit, actual: usize::MAX });
        },
    };
    if frame_len > limit {
        return Err(FrameFault::FrameTooLarge { limit, actual: frame_len });
    }
    if buf_len < frame_len {
        return Ok(None);
    }
    let payload = &buf[FRAME_HEADER_LEN..frame_len];
    let actual = checksum_of_parts(&buf[4..8], payload);
    let stored = read_u32_le(buf, 8);
    if actual != stored {
        return Err(FrameFault::ChecksumMismatch { expected: stored, actual });
    }
    Ok(Some((frame_len, payload)))
}

/// The result of `decode`, with the payload as a sequence of bytes.
pub open spec fn decoded_view(r: Result<Option<(usize, &[u8])>, FrameFault>) -> Result<
    Option<(usize, Seq<u8>)>,
    FrameFault,
> {
    match r {
        Ok(Some((frame_len, payload))) => Ok(Some((frame_len, payload@))),
        Ok(None) => Ok(None),
        Err(fault) => Err(fault),
    }
}

/// A frame is 12 bytes longer than its payload.
pub proof fn lemma_frame_len(payload: Seq<u8>)
    ensures
        header_bytes(payload).len() == FRAME_HEADER_LEN,
        frame_bytes(payload).len() == FRAME_HEADER_LEN + payload.len(),
{
    lemma_auto_spec_u32_to_from_le_bytes();
}

/// Round trip: a buffer that starts with the frame around `payload` decodes to
/// the frame's length and `payload`, whatever follows the frame.
pub proof fn lemma_decode_of_encode(limit: usize, payload: Seq<u8>, rest: Seq<u8>)
    requires
        FRAME_HEADER_LEN + payload.len() <= limit,
        payload.len() <= u32::MAX,
    ensures
        decode_spec(limit, frame_bytes(payload) + rest) == Ok::<
            Option<(usize, Seq<u8>)>,
            FrameFault,
        >(Some(((FRAME_HEADER_LEN + payload.len()) as usize, payload))),
{
    lemma_auto_spec_u32_to_from_le_bytes();
    let buf = frame_bytes(payload) + rest;
    let length = payload.len() as u32;
    assert(buf.subrange(0, 4) =~= spec_u32_to_le_bytes(FRAME_MAGIC_NUMBER));
    assert(buf.subrange(4, 8) =~= spec_u32_to_le_bytes(length));
    assert(buf.subrange(8, 12) =~= spec_u32_to_le_bytes(frame_checksum(payload)));
    assert(buf.subrange(12, 12 + payload.len() as int) =~= payload);
}

/// A decoder hands out a payload only if the header's checksum is the
/// checksum of the header's length field followed by that payload, the length
/// field holds the payload's length, and the frame is within the limit.
pub proof fn lemma_decoded_frame_is_checked(limit: usize, buf: Seq<u8>)
    requires
        decode_spec(limit, buf) matches Ok(Some(_)),
    ensures
        ({
            let (frame_len, payload) = decode_spec(limit, buf)->Ok_0->Some_0;
            &&& frame_len == FRAME_HEADER_LEN + payload.len()
            &&& frame_len <= limit
            &&& frame_len <= buf.len()
            &&& buf.subrange(0, frame_len as int) == frame_bytes(payload)
        }),
{
    lemma_auto_spec_u32_to_from_le_bytes();
    let (frame_len, payload) = decode_spec(limit, buf)->Ok_0->Some_0;
    let length = spec_u32_from_le_bytes(buf.subrange(4, 8));
    assert(payload.len() == length);
    assert(spec_u32_to_le_bytes(FRAME_MAGIC_NUMBER) == buf.subrange(0, 4));
    assert(spec_u32_to_le_bytes(length) == buf.subrange(4, 8));
    assert(spec_u32_to_le_bytes(frame_checksum(payload)) == buf.subrange(8, 12));
    assert(buf.subrange(0, frame_len as int) =~= frame_bytes(payload));
}

/// Corruption is detected: after one byte of a frame has been changed,
/// a change in the magic number is reported as such, a change in the stored
/// checksum is reported as a checksum mismatch, and a change in the payload
/// is reported as a checksum mismatch unless the changed payload has the
/// checksum of the unchanged one. A change in the length field makes the
/// frame look longer or shorter: a frame that looks longer is too large or
/// not yet complete, and one that looks shorter is reported as a checksum
/// mismatch unless the shortened payload, behind the changed length, has the
/// checksum of the unchanged frame.
pub proof fn lemma_corruption_is_detected(limit: usize, payload: Seq<u8>, index: int, value: u8)
    requires
        FRAME_HEADER_LEN + payload.len() <= limit,
        payload.len() <= u32::MAX,
        0 <= index < FRAME_HEADER_LEN + payload.len(),
        value != frame_bytes(payload)[index],
    ensures
        index < 4 ==> decode_spec(limit, frame_bytes(payload).update(index, value))
            matches Err(FrameFault::MagicNumberMismatch { .. }),
        4 <= index < 8 ==> match decode_spec(limit, frame_bytes(payload).update(index, value)) {
            Ok(None) => true,
            Err(FrameFault::FrameTooLarge { .. }) => true,
            Err(FrameFault::ChecksumMismatch { .. }) => true,
            Err(FrameFault::MagicNumberMismatch { .. }) => false,
            Ok(Some((frame_len, shortened))) => {
                &&& frame_len < FRAME_HEADER_LEN + payload.len()
                &&& shortened == payload.subrange(0, frame_len - FRAME_HEADER_LEN)
                &&& crc32_of(frame_bytes(payload).update(index, value).subrange(4, 8) + shortened)
                    == frame_checksum(payload)
            },
        },
        8 <= index < 12 ==> decode_spec(limit, frame_bytes(payload).update(index, value))
            matches Err(FrameFault::ChecksumMismatch { .. }),
        12 <= index ==> (decode_spec(limit, frame_bytes(payload).update(index, value))
            matches Err(FrameFault::ChecksumMismatch { .. })) || frame_checksum(
            payload.update(index - 12, value),
        ) == frame_checksum(payload),
{
    lemma_auto_spec_u32_to_from_le_bytes();
    let good = frame_bytes(payload);
    let bad = good.update(index, value);
    let length = payload.len() as u32;
    assert(good.subrange(0, 4) =~= spec_u32_to_le_bytes(FRAME_MAGIC_NUMBER));
    assert(good.subrange(4, 8) =~= spec_u32_to_le_bytes(length));
    assert(good.subrange(8, 12) =~= spec_u32_to_le_bytes(frame_checksum(payload)));
    assert(good.subrange(12, 12 + payload.len() as int) =~= payload);
    if index < 4 {
        assert(bad.subrange(0, 4)[index] != good.subrange(0, 4)[index]);
    } else if index < 8 {
        assert(bad.subrange(0, 4) =~= good.subrange(0, 4));
        assert(bad.subrange(8, 12) =~= good.subrange(8, 12));
        assert(bad.subrange(4, 8)[index - 4] != good.subrange(4, 8)[index - 4]);
        let changed = spec_u32_from_le_bytes(bad.subrange(4, 8));
        assert(changed != length);
        if FRAME_HEADER_LEN + changed <= limit && changed < length {
            assert(bad.subrange(12, 12 + changed) =~= payload.subrange(0, changed as int));
        }
    } else if index < 12 {
        assert(bad.subrange(0, 4) =~= good.subrange(0, 4));
        assert(bad.subrange(4, 8) =~= good.subrange(4, 8));
        assert(bad.subrange(12, 12 + payload.len() as int) =~= payload);
        assert(bad.subrange(8, 12)[index - 8] != good.subrange(8, 12)[index - 8]);
    } else {
        assert(bad.subrange(0, 4) =~= good.subrange(0, 4));
        assert(bad.subrange(4, 8) =~= good.subrange(4, 8));
        assert(bad.subrange(8, 12) =~= good.subrange(8, 12));
        assert(bad.subrange(12, 12 + payload.len() as int) =~= payload.update(index - 12, value));
    }
}

} // verus!

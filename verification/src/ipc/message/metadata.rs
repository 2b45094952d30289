//! The record that opens every message on the wire.
//!
//! ```text
//! offset  size  field
//! 0       8     request id
//! 8       8     method id
//! 16      8     number of arguments
//! ```
//!
//! All three are little-endian; the record is aligned to 8.

use crate::ipc::bytes::read_u64_le;
use crate::ipc::bytewise::{
    cursor_fits, item_bytes, read_step, remaining, write_step, BytewiseError, BytewiseRead,
    BytewiseReader, BytewiseWrite, BytewiseWriter, Cursor,
};
use crate::ipc::message::argument::wire::usize_of;
use vstd::bytes::*;
use vstd::prelude::*;

verus! {

/// Length of the metadata record.
pub const METADATA_LEN: usize = 24;

/// Alignment of the metadata record.
pub const METADATA_ALIGN: usize = 8;

/// What opens a message: which request it belongs to, which method it
/// names, and how many arguments follow.
#[derive(Clone, Copy, Debug, PartialEq, Eq, Structural)]
pub struct MessageMetadata {
    pub request_id: u64,
    pub method_id: u64,
    pub arg_count: usize,
}

/// The metadata record of `m`.
pub open spec fn metadata_bytes(m: MessageMetadata) -> Seq<u8> {
    spec_u64_to_le_bytes(m.request_id) + spec_u64_to_le_bytes(m.method_id) + spec_u64_to_le_bytes(
        m.arg_count as u64,
    )
}

/// Reading a metadata record at cursor `c`. A count beyond what `usize` can
/// hold fails as a buffer that is too short.
pub open spec fn read_metadata(c: Cursor) -> Result<(MessageMetadata, Cursor), BytewiseError> {
    match read_step(c, METADATA_LEN, METADATA_ALIGN) {
        Err(e) => Err(e),
        Ok((raw, behind)) => {
            let b = item_bytes(c, raw, METADATA_LEN);
            let count = spec_u64_from_le_bytes(b.subrange(16, 24));
            if count > usize::MAX {
                Err(
                    BytewiseError::InsufficientBuffer {
                        required: usize::MAX,
                        capacity: remaining(behind),
                    },
                )
            } else {
                Ok(
                    (
                        MessageMetadata {
                            request_id: spec_u64_from_le_bytes(b.subrange(0, 8)),
                            method_id: spec_u64_from_le_bytes(b.subrange(8, 16)),
                            arg_count: count as usize,
                        },
                        behind,
                    ),
                )
            }
        },
    }
}

/// Round trip of the metadata record, read from a buffer that lies as the
/// written one did.
pub proof fn lemma_metadata_round_trip(
    m: MessageMetadata,
    c: Cursor,
    later: Seq<u8>,
    rbase: usize,
)
    requires
        cursor_fits(c),
        rbase + later.len() <= usize::MAX,
        crate::ipc::bytewise::laws::same_alignment(c.base, rbase, METADATA_ALIGN),
        write_step(c, None, metadata_bytes(m), METADATA_ALIGN) is Ok,
        crate::ipc::bytewise::laws::shows_prefix(
            later,
            write_step(c, None, metadata_bytes(m), METADATA_ALIGN)->Ok_0.bytes,
            write_step(c, None, metadata_bytes(m), METADATA_ALIGN)->Ok_0.pos as int,
        ),
    ensures
        read_metadata(Cursor { bytes: later, base: rbase, pos: c.pos }) == Ok::<
            (MessageMetadata, Cursor),
            BytewiseError,
        >(
            (
                m,
                Cursor {
                    bytes: later,
                    base: rbase,
                    pos: write_step(c, None, metadata_bytes(m), METADATA_ALIGN)->Ok_0.pos,
                },
            ),
        ),
{
    lemma_auto_spec_u64_to_from_le_bytes();
    let b = metadata_bytes(m);
    assert(b.len() == METADATA_LEN);
    assert(b.subrange(0, 8) =~= spec_u64_to_le_bytes(m.request_id));
    assert(b.subrange(8, 16) =~= spec_u64_to_le_bytes(m.method_id));
    assert(b.subrange(16, 24) =~= spec_u64_to_le_bytes(m.arg_count as u64));
    crate::ipc::bytewise::laws::lemma_read_back(c, None, b, METADATA_ALIGN, later, rbase);
}

impl MessageMetadata {
    /// The metadata record.
    pub fn record(&self) -> (record: Vec<u8>)
        ensures
            record@ == metadata_bytes(*self),
            record@.len() == METADATA_LEN,
    {
        proof {
            lemma_auto_spec_u64_to_from_le_bytes();
        }
        let mut record = u64_to_le_bytes(self.request_id);
        let method_field = u64_to_le_bytes(self.method_id);
        let count_field = u64_to_le_bytes(self.arg_count as u64);
        record.extend_from_slice(method_field.as_slice());
        record.extend_from_slice(count_field.as_slice());
        record
    }
}

impl BytewiseWrite for MessageMetadata {
    open spec fn write_spec(&self, c: Cursor) -> Result<Cursor, BytewiseError> {
        write_step(c, None, metadata_bytes(*self), METADATA_ALIGN)
    }

    fn write_to<W: BytewiseWriter>(&self, writer: &mut W) -> (r: Result<(), BytewiseError>) {
        let record = self.record();
        proof {
            crate::ipc::bytewise::laws::lemma_write_extends_or_fails(
                old(writer).sink(),
                None,
                record@,
                METADATA_ALIGN,
            );
        }
        writer.write_ref(record.as_slice(), METADATA_ALIGN)
    }
}

impl BytewiseRead for MessageMetadata {
    open spec fn read_ref_spec(
        c: Cursor,
        result: Result<MessageMetadata, BytewiseError>,
        rest: Cursor,
    ) -> bool {
        &&& rest.bytes == c.bytes
        &&& rest.base == c.base
        &&& match read_metadata(c) {
            Ok((m, behind)) => result == Ok::<MessageMetadata, BytewiseError>(m) && rest == behind,
            Err(e) => result == Err::<MessageMetadata, BytewiseError>(e),
        }
    }

    fn read_ref<R: BytewiseReader>(reader: &mut R) -> (r: Result<MessageMetadata, BytewiseError>) {
        proof {
            if read_step(old(reader).source(), METADATA_LEN, METADATA_ALIGN) is Ok {
                crate::ipc::bytewise::laws::lemma_read_item(
                    old(reader).source(),
                    METADATA_LEN,
                    METADATA_ALIGN,
                );
            }
        }
        let item = reader.read_ref(METADATA_LEN, METADATA_ALIGN)?;
        let record = item.bytes.as_slice();
        let request_id = read_u64_le(record, 0);
        let method_id = read_u64_le(record, 8);
        let arg_count = match usize_of(read_u64_le(record, 16)) {
            Some(arg_count) => arg_count,
            None => {
                return Err(
                    BytewiseError::InsufficientBuffer {
                        required: usize::MAX,
                        capacity: reader.remaining_bytes(),
                    },
                );
            },
        };
        Ok(MessageMetadata { request_id, method_id, arg_count })
    }
}

} // verus!

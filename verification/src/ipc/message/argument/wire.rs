//! The argument on the wire.
//!
//! An argument travels as a record of 64 bytes, aligned to 16, followed by
//! the bytes of its referent, aligned as its elements are, unless the value
//! is held inline. The record holds, with integers in little-endian order:
//!
//! ```text
//! offset  size  field
//! 0       1     tag: 0 inline value, 1 scalar referent, 2 slice referent
//! 8       8     type token
//! 16      8     element size
//! 24      8     element alignment
//! 32      8     element count
//! 40      4     direction flags
//! 48      16    inline buffer; zero unless the value is held inline
//! ```
//!
//! The bytes at 1..8 and 44..48 are zero. Whether a referent was shared or
//! exclusive is not sent: the reader decides what it takes it for.

use crate::ipc::bytes::{read_u32_le, read_u64_le};
use crate::ipc::bytewise::{
    cursor_fits, item_bytes, read_step, remaining, write_step, BytewiseError, BytewiseReadOwned,
    BytewiseReader, BytewiseWrite, BytewiseWriter, Cursor,
};
use crate::ipc::message::argument::{
    Argument, ArgumentFlag, ArgumentKind, ArgumentValue, ArgumentView, Referent, ValueView,
    INLINED_DATA_ALIGN, INLINED_DATA_SIZE,
};
use vstd::bytes::*;
use vstd::prelude::*;

verus! {

/// Length of the argument record.
pub const ARGUMENT_RECORD_LEN: usize = 64;

/// Alignment of the argument record.
pub const ARGUMENT_RECORD_ALIGN: usize = 16;

/// Tag of an argument whose value is held inline.
pub const TAG_INLINE: u8 = 0;

/// Tag of a scalar that is followed by its referent.
pub const TAG_SCALAR: u8 = 1;

/// Tag of a slice that is followed by its referent.
pub const TAG_SLICE: u8 = 2;

/// `n` bytes of zero.
pub open spec fn zeros(n: nat) -> Seq<u8> {
    Seq::new(n, |i: int| 0u8)
}

/// The tag under which `v` travels.
pub open spec fn tag_of(v: ArgumentView) -> u8 {
    if v.is_inline() {
        TAG_INLINE
    } else if v.kind == ArgumentKind::Scalar {
        TAG_SCALAR
    } else {
        TAG_SLICE
    }
}

/// The inline buffer as it travels: that of an inline value, else zeros.
pub open spec fn inline_field(v: ArgumentView) -> Seq<u8> {
    match v.value {
        ValueView::Val(inline) => inline,
        _ => zeros(16),
    }
}

/// The record under which `v` travels.
pub open spec fn record_bytes(v: ArgumentView) -> Seq<u8> {
    seq![tag_of(v)] + zeros(7) + spec_u64_to_le_bytes(v.type_id) + spec_u64_to_le_bytes(
        v.type_size as u64,
    ) + spec_u64_to_le_bytes(v.type_align as u64) + spec_u64_to_le_bytes(v.len as u64)
        + spec_u32_to_le_bytes(v.flag.bits) + zeros(4) + inline_field(v)
}

/// The fields of a record.
pub struct RecordView {
    pub tag: u8,
    pub flag: u32,
    pub type_id: u64,
    pub size: u64,
    pub align: u64,
    pub len: u64,
    pub inline: Seq<u8>,
}

/// The fields that the 64 bytes `b` hold.
pub open spec fn parse_record(b: Seq<u8>) -> RecordView
    recommends
        b.len() == ARGUMENT_RECORD_LEN,
{
    RecordView {
        tag: b[0],
        flag: spec_u32_from_le_bytes(b.subrange(40, 44)),
        type_id: spec_u64_from_le_bytes(b.subrange(8, 16)),
        size: spec_u64_from_le_bytes(b.subrange(16, 24)),
        align: spec_u64_from_le_bytes(b.subrange(24, 32)),
        len: spec_u64_from_le_bytes(b.subrange(32, 40)),
        inline: b.subrange(48, 64),
    }
}

/// A record is 64 bytes long and holds the fields it was made from.
pub proof fn lemma_parse_of_record(v: ArgumentView)
    requires
        v.wf(),
    ensures
        record_bytes(v).len() == ARGUMENT_RECORD_LEN,
        parse_record(record_bytes(v)) == (RecordView {
            tag: tag_of(v),
            flag: v.flag.bits,
            type_id: v.type_id,
            size: v.type_size as u64,
            align: v.type_align as u64,
            len: v.len as u64,
            inline: inline_field(v),
        }),
{
    lemma_auto_spec_u32_to_from_le_bytes();
    lemma_auto_spec_u64_to_from_le_bytes();
    let b = record_bytes(v);
    assert(inline_field(v).len() == 16);
    assert(b.subrange(40, 44) =~= spec_u32_to_le_bytes(v.flag.bits));
    assert(b.subrange(8, 16) =~= spec_u64_to_le_bytes(v.type_id));
    assert(b.subrange(16, 24) =~= spec_u64_to_le_bytes(v.type_size as u64));
    assert(b.subrange(24, 32) =~= spec_u64_to_le_bytes(v.type_align as u64));
    assert(b.subrange(32, 40) =~= spec_u64_to_le_bytes(v.len as u64));
    assert(b.subrange(48, 64) =~= inline_field(v));
}

/// Writing `v` at cursor `c`: the record, then the referent if there is one.
#[verifier::opaque]
pub open spec fn write_view(v: ArgumentView, c: Cursor) -> Result<Cursor, BytewiseError> {
    match write_step(c, None, record_bytes(v), ARGUMENT_RECORD_ALIGN) {
        Err(e) => Err(e),
        Ok(behind) => match v.value {
            ValueView::Val(_) => Ok(behind),
            ValueView::Ref { addr, bytes } => write_step(behind, Some(addr), bytes, v.type_align),
            ValueView::Mut { addr, bytes } => write_step(behind, Some(addr), bytes, v.type_align),
        },
    }
}

/// Reading an argument at cursor `c`: the argument and the cursor behind it,
/// or the error. A record that asks for more than `usize` can count fails as
/// a buffer that is too short; an inline value of more than 16 bytes fails
/// as an inline buffer that is too short, and one that is aligned to more
/// than 16 as an alignment that the inline buffer cannot meet. A tag other
/// than 0 and 2 is read as 1. An inline value is a scalar and a scalar has
/// one element, whatever the record says.
#[verifier::opaque]
pub open spec fn read_view(c: Cursor, exclusive: bool) -> Result<
    (ArgumentView, Cursor),
    BytewiseError,
> {
    match read_step(c, ARGUMENT_RECORD_LEN, ARGUMENT_RECORD_ALIGN) {
        Err(e) => Err(e),
        Ok((raw, behind)) => {
            let record = parse_record(item_bytes(c, raw, ARGUMENT_RECORD_LEN));
            let flag = ArgumentFlag { bits: record.flag };
            let kind = if record.tag == TAG_SLICE {
                ArgumentKind::Slice
            } else {
                ArgumentKind::Scalar
            };
            let len = if kind == ArgumentKind::Scalar {
                1
            } else {
                record.len as int
            };
            if record.size > usize::MAX || record.align > usize::MAX || record.len > usize::MAX {
                Err(
                    BytewiseError::InsufficientBuffer {
                        required: usize::MAX,
                        capacity: remaining(behind),
                    },
                )
            } else if record.tag == TAG_INLINE {
                if record.size > INLINED_DATA_SIZE {
                    Err(
                        BytewiseError::InsufficientBuffer {
                            required: record.size as usize,
                            capacity: INLINED_DATA_SIZE,
                        },
                    )
                } else if record.align > INLINED_DATA_ALIGN {
                    Err(BytewiseError::IntrinsicMisalignment { align: record.align as usize })
                } else {
                    Ok(
                        (
                            ArgumentView {
                                kind: ArgumentKind::Scalar,
                                type_id: record.type_id,
                                type_size: record.size as usize,
                                type_align: record.align as usize,
                                len: 1,
                                value: ValueView::Val(record.inline),
                                flag,
                            },
                            behind,
                        ),
                    )
                }
            } else if record.size * len > usize::MAX {
                Err(
                    BytewiseError::InsufficientBuffer {
                        required: usize::MAX,
                        capacity: remaining(behind),
                    },
                )
            } else {
                let total = (record.size * len) as usize;
                match read_step(behind, total, record.align as usize) {
                    Err(e) => Err(e),
                    Ok((place, rest)) => {
                        let bytes = item_bytes(behind, place, total);
                        Ok(
                            (
                                ArgumentView {
                                    kind,
                                    type_id: record.type_id,
                                    type_size: record.size as usize,
                                    type_align: record.align as usize,
                                    len: len as usize,
                                    value: if exclusive {
                                        ValueView::Mut { addr: place.addr, bytes }
                                    } else {
                                        ValueView::Ref { addr: place.addr, bytes }
                                    },
                                    flag,
                                },
                                rest,
                            ),
                        )
                    },
                }
            }
        },
    }
}

/// `x` as a `usize`, if it fits.
pub fn usize_of(x: u64) -> (r: Option<usize>)
    ensures
        r == if x <= usize::MAX {
            Some(x as usize)
        } else {
            None::<usize>
        },
{
    if x > usize::MAX as u64 {
        None
    } else {
        Some(x as usize)
    }
}

/// Appends `count` bytes of zero to `record`.
fn push_zeros(record: &mut Vec<u8>, count: usize)
    ensures
        final(record)@ == old(record)@ + zeros(count as nat),
{
    let mut i: usize = 0;
    assert(record@ =~= old(record)@ + zeros(0));
    while i < count
        invariant
            i <= count,
            record@ == old(record)@ + zeros(i as nat),
        decreases count - i,
    {
        record.push(0);
        i = i + 1;
        assert(record@ =~= old(record)@ + zeros(i as nat));
    }
}

impl Argument {
    /// The record under which the argument travels.
    pub fn record(&self) -> (record: Vec<u8>)
        ensures
            record@ == record_bytes(self@),
    {
        let tag = match &self.value {
            ArgumentValue::Val(_) => TAG_INLINE,
            _ => match self.kind {
                ArgumentKind::Scalar => TAG_SCALAR,
                ArgumentKind::Slice => TAG_SLICE,
            },
        };
        let mut record: Vec<u8> = Vec::new();
        record.push(tag);
        assert(record@ =~= seq![tag]);
        push_zeros(&mut record, 7);
        let flag_field = u32_to_le_bytes(self.flag.bits);
        let id_field = u64_to_le_bytes(self.type_id);
        let size_field = u64_to_le_bytes(self.type_size as u64);
        let align_field = u64_to_le_bytes(self.type_align as u64);
        let len_field = u64_to_le_bytes(self.len as u64);
        record.extend_from_slice(id_field.as_slice());
        record.extend_from_slice(size_field.as_slice());
        record.extend_from_slice(align_field.as_slice());
        record.extend_from_slice(len_field.as_slice());
        record.extend_from_slice(flag_field.as_slice());
        push_zeros(&mut record, 4);
        match &self.value {
            ArgumentValue::Val(inline) => {
                record.extend_from_slice(&inline[0..16]);
                assert(inline@.subrange(0, 16) =~= inline@);
            },
            _ => {
                push_zeros(&mut record, 16);
            },
        }
        record
    }

    /// Reads an argument; see `read_view`.
    fn read_with<R: BytewiseReader>(reader: &mut R, exclusive: bool) -> (r: Result<
        Argument,
        BytewiseError,
    >)
        requires
            cursor_fits(old(reader).source()),
        ensures
            match read_view(old(reader).source(), exclusive) {
                Ok((v, rest)) => r is Ok && r->Ok_0@ == v && final(reader).source() == rest,
                Err(e) => r == Err::<Argument, BytewiseError>(e),
            },
            r is Ok ==> r->Ok_0.wf(),
            final(reader).source().bytes == old(reader).source().bytes,
            final(reader).source().base == old(reader).source().base,
    {
        proof {
            reveal(read_view);
        }
        let item = reader.read_ref(ARGUMENT_RECORD_LEN, ARGUMENT_RECORD_ALIGN)?;
        let record = item.bytes.as_slice();
        let tag = record[0];
        let flag = ArgumentFlag::from_bits_retain(read_u32_le(record, 40));
        let type_id = read_u64_le(record, 8);
        let size = usize_of(read_u64_le(record, 16));
        let align = usize_of(read_u64_le(record, 24));
        let len = usize_of(read_u64_le(record, 32));
        let (type_size, type_align, wire_len) = match (size, align, len) {
            (Some(type_size), Some(type_align), Some(wire_len)) => (type_size, type_align, wire_len),
            _ => {
                return Err(
                    BytewiseError::InsufficientBuffer {
                        required: usize::MAX,
                        capacity: reader.remaining_bytes(),
                    },
                );
            },
        };
        if tag == TAG_INLINE {
            if type_size > INLINED_DATA_SIZE {
                return Err(
                    BytewiseError::InsufficientBuffer {
                        required: type_size,
                        capacity: INLINED_DATA_SIZE,
                    },
                );
            }
            if type_align > INLINED_DATA_ALIGN {
                return Err(BytewiseError::IntrinsicMisalignment { align: type_align });
            }
            let mut inline = [0u8; 16];
            let mut i: usize = 0;
            while i < 16
                invariant
                    i <= 16,
                    record@.len() == 64,
                    inline@.len() == 16,
                    forall|k: int| 0 <= k < i ==> inline@[k] == record@[48 + k],
                decreases 16 - i,
            {
                inline[i] = record[48 + i];
                i = i + 1;
            }
            assert(inline@ =~= record@.subrange(48, 64));
            return Ok(
                Argument {
                    kind: ArgumentKind::Scalar,
                    type_id,
                    type_size,
                    type_align,
                    len: 1,
                    value: ArgumentValue::Val(inline),
                    flag,
                },
            );
        }
        let kind = if tag == TAG_SLICE {
            ArgumentKind::Slice
        } else {
            ArgumentKind::Scalar
        };
        let len = match kind {
            ArgumentKind::Scalar => 1,
            ArgumentKind::Slice => wire_len,
        };
        let payload_len = match type_size.checked_mul(len) {
            Some(payload_len) => payload_len,
            None => {
                return Err(
                    BytewiseError::InsufficientBuffer {
                        required: usize::MAX,
                        capacity: reader.remaining_bytes(),
                    },
                );
            },
        };
        proof {
            crate::ipc::bytewise::laws::lemma_read_item(
                old(reader).source(),
                ARGUMENT_RECORD_LEN,
                ARGUMENT_RECORD_ALIGN,
            );
            if read_step(reader.source(), payload_len, type_align) is Ok {
                crate::ipc::bytewise::laws::lemma_read_item(
                    reader.source(),
                    payload_len,
                    type_align,
                );
            }
        }
        let payload = if exclusive {
            reader.read_mut(payload_len, type_align)?
        } else {
            reader.read_ref(payload_len, type_align)?
        };
        let referent = Referent { addr: payload.addr, bytes: payload.bytes };
        let value = if exclusive {
            ArgumentValue::Mut(referent)
        } else {
            ArgumentValue::Ref(referent)
        };
        Ok(Argument { kind, type_id, type_size, type_align, len, value, flag })
    }
}

impl BytewiseWrite for Argument {
    open spec fn write_spec(&self, c: Cursor) -> Result<Cursor, BytewiseError> {
        write_view(self@, c)
    }

    fn write_to<W: BytewiseWriter>(&self, writer: &mut W) -> (r: Result<(), BytewiseError>) {
        let record = self.record();
        proof {
            reveal(write_view);
            crate::ipc::bytewise::laws::lemma_write_extends_or_fails(
                old(writer).sink(),
                None,
                record@,
                ARGUMENT_RECORD_ALIGN,
            );
        }
        writer.write_ref(record.as_slice(), ARGUMENT_RECORD_ALIGN)?;
        match &self.value {
            ArgumentValue::Val(_) => Ok(()),
            ArgumentValue::Ref(referent) => {
                proof {
                    crate::ipc::bytewise::laws::lemma_write_extends_or_fails(
                        writer.sink(),
                        Some(referent.addr),
                        referent.bytes@,
                        self.type_align,
                    );
                }
                writer.write_raw(referent.addr, referent.bytes.as_slice(), self.type_align)
            },
            ArgumentValue::Mut(referent) => {
                proof {
                    crate::ipc::bytewise::laws::lemma_write_extends_or_fails(
                        writer.sink(),
                        Some(referent.addr),
                        referent.bytes@,
                        self.type_align,
                    );
                }
                writer.write_raw(referent.addr, referent.bytes.as_slice(), self.type_align)
            },
        }
    }
}

impl BytewiseReadOwned for Argument {
    open spec fn read_spec(
        c: Cursor,
        exclusive: bool,
        result: Result<Argument, BytewiseError>,
        rest: Cursor,
    ) -> bool {
        match read_view(c, exclusive) {
            Ok((v, behind)) => result is Ok && result->Ok_0@ == v && result->Ok_0.wf() && rest
                == behind && rest.bytes == c.bytes && rest.base == c.base,
            Err(e) => result == Err::<Argument, BytewiseError>(e) && rest.bytes == c.bytes
                && rest.base == c.base,
        }
    }

    fn read_from<R: BytewiseReader>(reader: &mut R) -> (r: Result<Argument, BytewiseError>) {
        Argument::read_with(reader, false)
    }

    fn read_from_mut<R: BytewiseReader>(reader: &mut R) -> (r: Result<Argument, BytewiseError>) {
        Argument::read_with(reader, true)
    }
}

/// What a reader makes of the argument `a` whose referent it found at
/// `addr`: the same metadata and flags around the same bytes; an inline value
/// stays inline, a referent is taken as exclusive or shared as the reader
/// chooses.
pub open spec fn received(a: ArgumentView, exclusive: bool, addr: usize) -> ArgumentView {
    match a.value {
        ValueView::Val(_) => a,
        _ => ArgumentView {
            value: if exclusive {
                ValueView::Mut { addr, bytes: a.payload() }
            } else {
                ValueView::Ref { addr, bytes: a.payload() }
            },
            ..a
        },
    }
}

/// Whether `got` is what a reader makes of `sent`, wherever it found the
/// referent.
pub open spec fn is_received(sent: ArgumentView, got: ArgumentView, exclusive: bool) -> bool {
    got == received(
        sent,
        exclusive,
        match got.address() {
            Some(addr) => addr,
            None => 0,
        },
    )
}

/// Whether a buffer at `rbase` lies as a buffer at `wbase` does, as far as
/// the argument `a` is concerned: alike for its record, and alike for its
/// referent if it has one that holds bytes.
pub open spec fn lies_alike(a: ArgumentView, wbase: usize, rbase: usize) -> bool {
    &&& crate::ipc::bytewise::laws::same_alignment(wbase, rbase, ARGUMENT_RECORD_ALIGN)
    &&& !a.is_inline() && a.payload().len() > 0 ==> crate::ipc::bytewise::laws::same_alignment(
        wbase,
        rbase,
        a.type_align,
    )
}

/// Round trip of one argument: after `a` has been written at cursor `c`, a
/// reader that starts where the writer started, over any buffer that starts
/// as the written one does, up to the end of the argument, and lies as the
/// written one did, reads an argument with the metadata, flags and bytes of
/// `a`, and ends where the writer ended.
pub proof fn lemma_argument_round_trip(
    a: ArgumentView,
    c: Cursor,
    later: Seq<u8>,
    rbase: usize,
    exclusive: bool,
)
    requires
        a.wf(),
        cursor_fits(c),
        rbase + later.len() <= usize::MAX,
        lies_alike(a, c.base, rbase),
        write_view(a, c) is Ok,
        crate::ipc::bytewise::laws::shows_prefix(
            later,
            write_view(a, c)->Ok_0.bytes,
            write_view(a, c)->Ok_0.pos as int,
        ),
    ensures
        ({
            let next = write_view(a, c)->Ok_0;
            let got = read_view(Cursor { bytes: later, base: rbase, pos: c.pos }, exclusive);
            &&& got is Ok
            &&& got->Ok_0.1 == (Cursor { bytes: later, base: rbase, pos: next.pos })
            &&& is_received(a, got->Ok_0.0, exclusive)
            &&& got->Ok_0.0.payload() == a.payload()
            &&& got->Ok_0.0.wf()
        }),
{
    reveal(write_view);
    reveal(read_view);
    lemma_parse_of_record(a);
    let record = record_bytes(a);
    let start = Cursor { bytes: later, base: rbase, pos: c.pos };
    let behind = write_step(c, None, record, ARGUMENT_RECORD_ALIGN)->Ok_0;
    let next = write_view(a, c)->Ok_0;
    crate::ipc::bytewise::laws::lemma_write_extends(c, None, record, ARGUMENT_RECORD_ALIGN);
    match a.value {
        ValueView::Val(inline) => {
            crate::ipc::bytewise::laws::lemma_read_back(
                c,
                None,
                record,
                ARGUMENT_RECORD_ALIGN,
                later,
                rbase,
            );
            let got = read_view(start, exclusive);
            assert(got->Ok_0.0 == received(a, exclusive, 0));
        },
        _ => {
            let addr = a.address()->Some_0;
            let bytes = a.payload();
            crate::ipc::bytewise::laws::lemma_write_extends(
                behind,
                Some(addr),
                bytes,
                a.type_align,
            );
            assert(crate::ipc::bytewise::laws::shows_prefix(
                later,
                behind.bytes,
                behind.pos as int,
            ));
            crate::ipc::bytewise::laws::lemma_read_back(
                c,
                None,
                record,
                ARGUMENT_RECORD_ALIGN,
                later,
                rbase,
            );
            crate::ipc::bytewise::laws::lemma_read_back(
                behind,
                Some(addr),
                bytes,
                a.type_align,
                later,
                rbase,
            );
            let got = read_view(start, exclusive);
            let middle = Cursor { bytes: later, base: rbase, pos: behind.pos };
            let place = read_step(middle, bytes.len() as usize, a.type_align)->Ok_0.0;
            assert(got is Ok);
            assert(got->Ok_0.0 == received(a, exclusive, place.addr));
        },
    }
}

/// The arguments of a list as mathematical values.
pub open spec fn views(args: Seq<Argument>) -> Seq<ArgumentView> {
    Seq::new(args.len(), |i: int| args[i]@)
}

/// Whether every argument of a list satisfies what every argument satisfies.
pub open spec fn all_wf(args: Seq<ArgumentView>) -> bool {
    forall|i: int| 0 <= i < args.len() ==> (#[trigger] args[i]).wf()
}

/// Writing the arguments `args` one after the other, from cursor `c` on.
pub open spec fn write_args(args: Seq<ArgumentView>, c: Cursor) -> Result<Cursor, BytewiseError>
    decreases args.len(),
{
    if args.len() == 0 {
        Ok(c)
    } else {
        match write_args(args.drop_last(), c) {
            Err(e) => Err(e),
            Ok(behind) => write_view(args.last(), behind),
        }
    }
}

/// Reading `count` arguments one after the other, from cursor `c` on.
pub open spec fn read_args(c: Cursor, count: nat, exclusive: bool) -> Result<
    (Seq<ArgumentView>, Cursor),
    BytewiseError,
>
    decreases count,
{
    if count == 0 {
        Ok((Seq::empty(), c))
    } else {
        match read_args(c, (count - 1) as nat, exclusive) {
            Err(e) => Err(e),
            Ok((args, behind)) => match read_view(behind, exclusive) {
                Err(e) => Err(e),
                Ok((arg, rest)) => Ok((args.push(arg), rest)),
            },
        }
    }
}

/// An error in writing the first `k` arguments is the error of writing all.
pub proof fn lemma_write_args_error(args: Seq<ArgumentView>, c: Cursor, k: int)
    requires
        0 <= k <= args.len(),
        write_args(args.take(k), c) is Err,
    ensures
        write_args(args, c) == write_args(args.take(k), c),
    decreases args.len() - k,
{
    if k == args.len() {
        assert(args.take(k) =~= args);
    } else {
        assert(args.take(k + 1).drop_last() =~= args.take(k));
        lemma_write_args_error(args, c, k + 1);
    }
}

/// An error in reading the first `k` arguments is the error of reading more.
pub proof fn lemma_read_args_error(c: Cursor, k: nat, count: nat, exclusive: bool)
    requires
        k <= count,
        read_args(c, k, exclusive) is Err,
    ensures
        read_args(c, count, exclusive) is Err,
        read_args(c, count, exclusive)->Err_0 == read_args(c, k, exclusive)->Err_0,
    decreases count - k,
{
    if k < count {
        lemma_read_args_error(c, k, (count - 1) as nat, exclusive);
    }
}

/// Writing an argument keeps the buffer's address and length, moves the
/// position forward, and leaves every byte before the old position as it was.
pub proof fn lemma_write_view_extends(a: ArgumentView, c: Cursor)
    requires
        cursor_fits(c),
        write_view(a, c) is Ok,
    ensures
        ({
            let next = write_view(a, c)->Ok_0;
            &&& next.base == c.base
            &&& next.bytes.len() == c.bytes.len()
            &&& next.pos >= c.pos
            &&& crate::ipc::bytewise::laws::agree_below(next.bytes, c.bytes, c.pos as int)
            &&& cursor_fits(next)
        }),
{
    reveal(write_view);
    let record = record_bytes(a);
    let behind = write_step(c, None, record, ARGUMENT_RECORD_ALIGN)->Ok_0;
    crate::ipc::bytewise::laws::lemma_write_extends(c, None, record, ARGUMENT_RECORD_ALIGN);
    match a.value {
        ValueView::Val(_) => {},
        ValueView::Ref { addr, bytes } => {
            crate::ipc::bytewise::laws::lemma_write_extends(behind, Some(addr), bytes, a.type_align);
        },
        ValueView::Mut { addr, bytes } => {
            crate::ipc::bytewise::laws::lemma_write_extends(behind, Some(addr), bytes, a.type_align);
        },
    }
}

/// Writing a list of arguments keeps the buffer's address and length, moves
/// the position forward, and leaves every byte before the old position as it
/// was.
pub proof fn lemma_write_args_extends(args: Seq<ArgumentView>, c: Cursor)
    requires
        cursor_fits(c),
        write_args(args, c) is Ok,
    ensures
        ({
            let next = write_args(args, c)->Ok_0;
            &&& next.base == c.base
            &&& next.bytes.len() == c.bytes.len()
            &&& next.pos >= c.pos
            &&& crate::ipc::bytewise::laws::agree_below(next.bytes, c.bytes, c.pos as int)
            &&& cursor_fits(next)
        }),
    decreases args.len(),
{
    if args.len() > 0 {
        lemma_write_args_extends(args.drop_last(), c);
        let behind = write_args(args.drop_last(), c)->Ok_0;
        lemma_write_view_extends(args.last(), behind);
    }
}

/// Whether the arguments `got` are what a reader makes of the arguments
/// `sent`: as many, each with the metadata, flags and bytes of the one sent.
pub open spec fn received_all(sent: Seq<ArgumentView>, got: Seq<ArgumentView>, exclusive: bool) -> bool {
    &&& got.len() == sent.len()
    &&& forall|i: int| 0 <= i < sent.len() ==> is_received(sent[i], #[trigger] got[i], exclusive)
}

/// Whether a buffer at `rbase` lies as a buffer at `wbase` does, as far as
/// the arguments `args` are concerned.
pub open spec fn all_lie_alike(args: Seq<ArgumentView>, wbase: usize, rbase: usize) -> bool {
    &&& crate::ipc::bytewise::laws::same_alignment(wbase, rbase, ARGUMENT_RECORD_ALIGN)
    &&& forall|i: int| 0 <= i < args.len() ==> lies_alike(#[trigger] args[i], wbase, rbase)
}

/// Round trip of a list of arguments.
pub proof fn lemma_args_round_trip(
    args: Seq<ArgumentView>,
    c: Cursor,
    later: Seq<u8>,
    rbase: usize,
    exclusive: bool,
)
    requires
        all_wf(args),
        cursor_fits(c),
        rbase + later.len() <= usize::MAX,
        all_lie_alike(args, c.base, rbase),
        write_args(args, c) is Ok,
        crate::ipc::bytewise::laws::shows_prefix(
            later,
            write_args(args, c)->Ok_0.bytes,
            write_args(args, c)->Ok_0.pos as int,
        ),
    ensures
        ({
            let next = write_args(args, c)->Ok_0;
            let got = read_args(
                Cursor { bytes: later, base: rbase, pos: c.pos },
                args.len(),
                exclusive,
            );
            &&& got is Ok
            &&& got->Ok_0.1 == (Cursor { bytes: later, base: rbase, pos: next.pos })
            &&& received_all(args, got->Ok_0.0, exclusive)
            &&& all_wf(got->Ok_0.0)
        }),
    decreases args.len(),
{
    if args.len() > 0 {
        let front = args.drop_last();
        let behind = write_args(front, c)->Ok_0;
        let next = write_args(args, c)->Ok_0;
        lemma_write_args_extends(front, c);
        lemma_write_view_extends(args.last(), behind);
        assert(crate::ipc::bytewise::laws::shows_prefix(later, behind.bytes, behind.pos as int));
        assert(all_wf(front));
        assert(all_lie_alike(front, c.base, rbase)) by {
            assert forall|i: int| 0 <= i < front.len() implies lies_alike(
                #[trigger] front[i],
                c.base,
                rbase,
            ) by {
                assert(front[i] == args[i]);
            }
        }
        assert(lies_alike(args.last(), c.base, rbase));
        lemma_args_round_trip(front, c, later, rbase, exclusive);
        lemma_argument_round_trip(args.last(), behind, later, rbase, exclusive);
        let start = Cursor { bytes: later, base: rbase, pos: c.pos };
        let middle = Cursor { bytes: later, base: rbase, pos: behind.pos };
        let got_front = read_args(start, front.len(), exclusive)->Ok_0.0;
        let got_last = read_view(middle, exclusive)->Ok_0.0;
        assert((args.len() - 1) as nat == front.len());
        assert(read_args(start, front.len(), exclusive)->Ok_0.1 == middle);
        assert(read_args(start, args.len(), exclusive) == Ok::<
            (Seq<ArgumentView>, Cursor),
            BytewiseError,
        >((got_front.push(got_last), read_view(middle, exclusive)->Ok_0.1)));
        let got = got_front.push(got_last);
        assert forall|i: int| 0 <= i < args.len() implies is_received(
            args[i],
            #[trigger] got[i],
            exclusive,
        ) by {
            if i < front.len() {
                assert(got[i] == got_front[i]);
                assert(args[i] == front[i]);
            } else {
                assert(got[i] == got_last);
                assert(args[i] == args.last());
            }
        }
        assert forall|i: int| 0 <= i < got.len() implies (#[trigger] got[i]).wf() by {
            if i < front.len() {
                assert(got[i] == got_front[i]);
            }
        }
    }
}

/// Writes the arguments of `args` one after the other.
pub fn write_arguments<W: BytewiseWriter>(args: &Vec<Argument>, writer: &mut W) -> (r: Result<
    (),
    BytewiseError,
>)
    requires
        cursor_fits(old(writer).sink()),
    ensures
        match write_args(views(args@), old(writer).sink()) {
            Ok(next) => r is Ok && final(writer).sink() == next,
            Err(e) => r == Err::<(), BytewiseError>(e),
        },
        final(writer).sink().base == old(writer).sink().base,
        final(writer).sink().bytes.len() == old(writer).sink().bytes.len(),
{
    let ghost all = views(args@);
    let count = args.len();
    let mut i: usize = 0;
    assert(all.take(0) =~= Seq::<ArgumentView>::empty());
    while i < count
        invariant
            i <= count,
            count == args@.len(),
            all == views(args@),
            write_args(all.take(i as int), old(writer).sink()) == Ok::<Cursor, BytewiseError>(
                writer.sink(),
            ),
            writer.sink().base == old(writer).sink().base,
            writer.sink().bytes.len() == old(writer).sink().bytes.len(),
            cursor_fits(old(writer).sink()),
        decreases count - i,
    {
        proof {
            assert(all.take(i + 1).drop_last() =~= all.take(i as int));
            assert(all.take(i + 1).last() == args@[i as int]@);
        }
        match args[i].write_to(writer) {
            Ok(()) => {},
            Err(e) => {
                proof {
                    lemma_write_args_error(all, old(writer).sink(), i + 1);
                }
                return Err(e);
            },
        }
        i = i + 1;
    }
    assert(all.take(count as int) =~= all);
    Ok(())
}

/// Reads `count` arguments one after the other.
pub fn read_arguments<R: BytewiseReader>(reader: &mut R, count: usize, exclusive: bool) -> (r:
    Result<Vec<Argument>, BytewiseError>)
    requires
        cursor_fits(old(reader).source()),
    ensures
        match read_args(old(reader).source(), count as nat, exclusive) {
            Ok((args, rest)) => r is Ok && views(r->Ok_0@) == args && final(reader).source()
                == rest,
            Err(e) => r == Err::<Vec<Argument>, BytewiseError>(e),
        },
        r is Ok ==> all_wf(views(r->Ok_0@)),
        final(reader).source().bytes == old(reader).source().bytes,
        final(reader).source().base == old(reader).source().base,
{
    let mut list: Vec<Argument> = Vec::new();
    let mut i: usize = 0;
    assert(views(list@) =~= Seq::<ArgumentView>::empty());
    while i < count
        invariant
            i <= count,
            list@.len() == i,
            read_args(old(reader).source(), i as nat, exclusive) == Ok::<
                (Seq<ArgumentView>, Cursor),
                BytewiseError,
            >((views(list@), reader.source())),
            all_wf(views(list@)),
            reader.source().bytes == old(reader).source().bytes,
            reader.source().base == old(reader).source().base,
            cursor_fits(old(reader).source()),
        decreases count - i,
    {
        let ghost before = views(list@);
        let arg = if exclusive {
            Argument::read_from_mut(reader)
        } else {
            Argument::read_from(reader)
        };
        match arg {
            Ok(arg) => {
                list.push(arg);
                assert(views(list@) =~= before.push(arg@));
            },
            Err(e) => {
                proof {
                    lemma_read_args_error(
                        old(reader).source(),
                        (i + 1) as nat,
                        count as nat,
                        exclusive,
                    );
                }
                return Err(e);
            },
        }
        i = i + 1;
    }
    Ok(list)
}

/// Copies of the arguments of `args`, in order.
pub fn clone_arguments(args: &Vec<Argument>) -> (copies: Vec<Argument>)
    ensures
        views(copies@) == views(args@),
{
    let count = args.len();
    let mut copies: Vec<Argument> = Vec::new();
    let mut i: usize = 0;
    while i < count
        invariant
            i <= count,
            count == args@.len(),
            copies@.len() == i,
            forall|k: int| 0 <= k < i ==> (#[trigger] copies@[k])@ == args@[k]@,
        decreases count - i,
    {
        copies.push(args[i].clone());
        i = i + 1;
    }
    assert(views(copies@) =~= views(args@));
    copies
}

} // verus!

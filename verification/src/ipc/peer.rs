//! Peers: sending a message as one frame, and receiving one.

use crate::ipc::bytes::{copy_into, overwrite};
use crate::ipc::bytewise::{
    BytewiseBuffer, BytewiseError, BytewiseReadOwned, BytewiseReader, BytewiseWrite,
    BytewiseWriter, Cursor,
};
use crate::ipc::bytewise::write_step;
use crate::ipc::error::IpcError;
use crate::ipc::framer::header::{frame_bytes, FRAME_HEADER_LEN, MAX_FRAME_LEN};
use crate::ipc::message::argument::wire::{
    all_lie_alike, all_wf, is_received, lemma_write_args_extends, lemma_write_view_extends,
    lies_alike, received_all, write_args,
};
use crate::ipc::message::metadata::{metadata_bytes, MessageMetadata, METADATA_ALIGN};
use crate::ipc::message::request::{lemma_request_round_trip, read_request, write_request};
use crate::ipc::message::response::{lemma_response_round_trip, read_response, write_response};
use crate::ipc::framer::length_prefix_framer::{finalize_result, framer_decode_spec};
use crate::ipc::framer::{Frame, FrameBuf, Framer, LengthPrefixFramer, LengthPrefixFramerError};
use crate::ipc::message::{Request, Response};
use crate::ipc::transport::{Endpoint, ReadBuf, Transport, WriteBuf};
use vstd::prelude::*;
use vstd::slice::slice_to_vec;

verus! {

/// The cursor at which the payload of a frame starts, in a region at `addr`
/// that holds `region`.
pub open spec fn payload_cursor(region: Seq<u8>, addr: usize) -> Cursor {
    Cursor {
        bytes: region.subrange(FRAME_HEADER_LEN as int, region.len() as int),
        base: (addr + FRAME_HEADER_LEN) as usize,
        pos: 0,
    }
}

/// Builds the frame that carries `message` at the start of `region`, which
/// lies at `addr`: the message is written behind the room for the header,
/// then the header is filled in. Returns the length of the frame, which is
/// what has to be submitted. A region that is too short for a header, a
/// message that does not fit, and a frame beyond the framer's limit are
/// errors; an error in writing the message leaves the region as it was.
pub fn seal_message<B: BytewiseWrite, E>(
    framer: &LengthPrefixFramer,
    message: &B,
    region: &mut [u8],
    addr: usize,
) -> (r: Result<usize, IpcError<E>>)
    requires
        addr + old(region)@.len() <= usize::MAX,
    ensures
        final(region)@.len() == old(region)@.len(),
        old(region)@.len() < FRAME_HEADER_LEN ==> r == Err::<usize, IpcError<E>>(
            IpcError::FramerError(
                LengthPrefixFramerError::InsufficientBuffer {
                    required: FRAME_HEADER_LEN,
                    capacity: old(region)@.len() as usize,
                },
            ),
        ) && final(region)@ == old(region)@,
        old(region)@.len() >= FRAME_HEADER_LEN ==> match message.write_spec(
            payload_cursor(old(region)@, addr),
        ) {
            Err(e) => r == Err::<usize, IpcError<E>>(IpcError::BytewiseError(e)) && final(region)@
                == old(region)@,
            Ok(written) => match finalize_result(
                framer.limit_spec(),
                old(region)@.len(),
                written.pos,
            ) {
                Err(e) => r == Err::<usize, IpcError<E>>(IpcError::FramerError(e))
                    && final(region)@ == overwrite(
                    old(region)@,
                    FRAME_HEADER_LEN as int,
                    written.bytes,
                ),
                Ok(frame_len) => r == Ok::<usize, IpcError<E>>(frame_len) && frame_len
                    == FRAME_HEADER_LEN + written.pos && final(region)@ == overwrite(
                    overwrite(old(region)@, FRAME_HEADER_LEN as int, written.bytes),
                    0,
                    frame_bytes(written.bytes.subrange(0, written.pos as int)),
                ),
            },
        },
{
    let region_len = region.len();
    if region_len < FRAME_HEADER_LEN {
        return Err(
            IpcError::FramerError(
                LengthPrefixFramerError::InsufficientBuffer {
                    required: FRAME_HEADER_LEN,
                    capacity: region_len,
                },
            ),
        );
    }
    let scratch = slice_to_vec(&region[FRAME_HEADER_LEN..region_len]);
    let mut writer = BytewiseBuffer::at_address(scratch, addr + FRAME_HEADER_LEN, 0, 0);
    match message.write_to(&mut writer) {
        Ok(()) => {},
        Err(e) => {
            return Err(IpcError::BytewiseError(e));
        },
    }
    let payload_len = writer.written_bytes();
    let payload = writer.into_inner();
    copy_into(region, FRAME_HEADER_LEN, payload.as_slice());
    let ghost filled = region@;
    proof {
        crate::ipc::bytes::lemma_overwrite(old(region)@, FRAME_HEADER_LEN as int, payload@);
    }
    let frame_buf = framer.encode_frame(region);
    match frame_buf.finalize(payload_len) {
        Ok(frame_len) => {
            proof {
                let carried = payload@.subrange(0, payload_len as int);
                assert(filled.subrange(FRAME_HEADER_LEN as int, frame_len as int) =~= carried);
                crate::ipc::framer::header::lemma_frame_len(carried);
                crate::ipc::bytes::lemma_overwrite(filled, 0, frame_bytes(carried));
            }
            Ok(frame_len)
        },
        Err(e) => Err(IpcError::FramerError(e)),
    }
}

/// Looks for a frame at the start of `readable`, which lies at `addr`, and
/// reads the message that it carries. Returns nothing while the frame is
/// incomplete, else the message and the length of the frame, which is what
/// has to be consumed.
pub fn open_message<B: BytewiseReadOwned, E>(
    framer: &LengthPrefixFramer,
    readable: &[u8],
    addr: usize,
) -> (r: Result<Option<(B, usize)>, IpcError<E>>)
    requires
        addr + readable@.len() <= usize::MAX,
    ensures
        match framer_decode_spec(framer.limit_spec(), readable@) {
            Err(e) => r == Err::<Option<(B, usize)>, IpcError<E>>(IpcError::FramerError(e)),
            Ok(None) => r == Ok::<Option<(B, usize)>, IpcError<E>>(None),
            Ok(Some((frame_len, payload))) => match r {
                Ok(Some((message, consumed))) => consumed == frame_len && reads_as(
                    Cursor { bytes: payload, base: (addr + FRAME_HEADER_LEN) as usize, pos: 0 },
                    Ok::<B, BytewiseError>(message),
                ),
                Err(IpcError::BytewiseError(e)) => reads_as(
                    Cursor { bytes: payload, base: (addr + FRAME_HEADER_LEN) as usize, pos: 0 },
                    Err::<B, BytewiseError>(e),
                ),
                _ => false,
            },
        },
{
    let frame = match framer.decode_frame(readable) {
        Ok(Some(frame)) => frame,
        Ok(None) => {
            return Ok(None);
        },
        Err(e) => {
            return Err(IpcError::FramerError(e));
        },
    };
    proof {
        crate::ipc::framer::header::lemma_decoded_frame_is_checked(
            framer.limit_spec(),
            readable@,
        );
    }
    let frame_len = frame.frame_len();
    let payload = slice_to_vec(frame.payload());
    let mut reader = BytewiseBuffer::at_address(payload, addr + FRAME_HEADER_LEN, 0, 0);
    let ghost start = reader.source();
    let message = B::read_from_mut(&mut reader);
    assert(B::read_spec(start, true, message, reader.source()));
    match message {
        Ok(message) => Ok(Some((message, frame_len))),
        Err(e) => Err(IpcError::BytewiseError(e)),
    }
}

/// Whether reading a message at cursor `c`, with its referents taken as
/// exclusive, may give `result`.
pub open spec fn reads_as<B: BytewiseReadOwned>(c: Cursor, result: Result<B, BytewiseError>) -> bool {
    exists|rest: Cursor| #[trigger] B::read_spec(c, true, result, rest)
}

/// What `seal_message` leaves in `region` when it succeeds, having written
/// the message up to the cursor `written`.
pub open spec fn sealed(region: Seq<u8>, written: Cursor) -> Seq<u8> {
    overwrite(
        overwrite(region, FRAME_HEADER_LEN as int, written.bytes),
        0,
        frame_bytes(written.bytes.subrange(0, written.pos as int)),
    )
}

/// A sealed frame opens as its payload: a buffer that starts with what
/// `seal_message` left in a region decodes to the frame's length and to the
/// bytes that the message was written as.
pub proof fn lemma_sealed_frame_decodes(
    limit: usize,
    region: Seq<u8>,
    written: Cursor,
    readable: Seq<u8>,
)
    requires
        FRAME_HEADER_LEN <= limit <= MAX_FRAME_LEN,
        written.bytes.len() == region.len() - FRAME_HEADER_LEN,
        finalize_result(limit, region.len(), written.pos) is Ok,
        crate::ipc::bytewise::laws::shows_prefix(
            readable,
            sealed(region, written),
            FRAME_HEADER_LEN + written.pos,
        ),
    ensures
        framer_decode_spec(limit, readable) == Ok::<
            Option<(usize, Seq<u8>)>,
            LengthPrefixFramerError,
        >(
            Some(
                (
                    (FRAME_HEADER_LEN + written.pos) as usize,
                    written.bytes.subrange(0, written.pos as int),
                ),
            ),
        ),
{
    let payload = written.bytes.subrange(0, written.pos as int);
    let frame_len = FRAME_HEADER_LEN + written.pos;
    let filled = overwrite(region, FRAME_HEADER_LEN as int, written.bytes);
    crate::ipc::bytes::lemma_overwrite(region, FRAME_HEADER_LEN as int, written.bytes);
    crate::ipc::framer::header::lemma_frame_len(payload);
    crate::ipc::bytes::lemma_overwrite(filled, 0, frame_bytes(payload));
    let rest = readable.subrange(frame_len, readable.len() as int);
    assert(readable =~= frame_bytes(payload) + rest) by {
        assert forall|i: int| 0 <= i < frame_len implies readable[i] == frame_bytes(payload)[i] by {
            assert(sealed(region, written).subrange(0, frame_len)[i] == frame_bytes(payload)[i]);
        }
    }
    crate::ipc::framer::header::lemma_decode_of_encode(limit, payload, rest);
}

/// A request crosses: after `seal_message` has built the frame of the
/// request `v` in a region at `waddr`, a peer that is shown the frame at
/// `raddr`, in a mapping that lies as the writer's does, opens it as a
/// request with the same ids and as many arguments, each with the metadata,
/// flags and bytes of the one sent.
pub proof fn lemma_sealed_request_opens(
    limit: usize,
    v: crate::ipc::message::RequestView,
    region: Seq<u8>,
    waddr: usize,
    readable: Seq<u8>,
    raddr: usize,
    exclusive: bool,
)
    requires
        FRAME_HEADER_LEN <= limit <= MAX_FRAME_LEN,
        region.len() >= FRAME_HEADER_LEN,
        waddr + region.len() <= usize::MAX,
        raddr + readable.len() <= usize::MAX,
        all_wf(v.args),
        v.args.len() <= usize::MAX,
        write_request(v, payload_cursor(region, waddr)) is Ok,
        finalize_result(
            limit,
            region.len(),
            write_request(v, payload_cursor(region, waddr))->Ok_0.pos,
        ) is Ok,
        crate::ipc::bytewise::laws::shows_prefix(
            readable,
            sealed(region, write_request(v, payload_cursor(region, waddr))->Ok_0),
            FRAME_HEADER_LEN + write_request(v, payload_cursor(region, waddr))->Ok_0.pos,
        ),
        crate::ipc::bytewise::laws::same_alignment(
            (waddr + FRAME_HEADER_LEN) as usize,
            (raddr + FRAME_HEADER_LEN) as usize,
            METADATA_ALIGN,
        ),
        all_lie_alike(
            v.args,
            (waddr + FRAME_HEADER_LEN) as usize,
            (raddr + FRAME_HEADER_LEN) as usize,
        ),
    ensures
        ({
            let written = write_request(v, payload_cursor(region, waddr))->Ok_0;
            let payload = written.bytes.subrange(0, written.pos as int);
            let got = read_request(
                Cursor { bytes: payload, base: (raddr + FRAME_HEADER_LEN) as usize, pos: 0 },
                exclusive,
            );
            &&& framer_decode_spec(limit, readable) == Ok::<
                Option<(usize, Seq<u8>)>,
                LengthPrefixFramerError,
            >(Some(((FRAME_HEADER_LEN + written.pos) as usize, payload)))
            &&& got is Ok
            &&& got->Ok_0.0.request_id == v.request_id
            &&& got->Ok_0.0.method_id == v.method_id
            &&& received_all(v.args, got->Ok_0.0.args, exclusive)
        }),
{
    let start = payload_cursor(region, waddr);
    let written = write_request(v, start)->Ok_0;
    let metadata = MessageMetadata {
        request_id: v.request_id,
        method_id: v.method_id,
        arg_count: v.args.len() as usize,
    };
    crate::ipc::bytewise::laws::lemma_write_extends(
        start,
        None,
        metadata_bytes(metadata),
        METADATA_ALIGN,
    );
    let behind = write_step(start, None, metadata_bytes(metadata), METADATA_ALIGN)->Ok_0;
    lemma_write_args_extends(v.args, behind);
    lemma_sealed_frame_decodes(limit, region, written, readable);
    let payload = written.bytes.subrange(0, written.pos as int);
    lemma_request_round_trip(
        v,
        start,
        payload,
        (raddr + FRAME_HEADER_LEN) as usize,
        exclusive,
    );
}

/// A response crosses, as a request does.
pub proof fn lemma_sealed_response_opens(
    limit: usize,
    v: crate::ipc::message::ResponseView,
    region: Seq<u8>,
    waddr: usize,
    readable: Seq<u8>,
    raddr: usize,
    exclusive: bool,
)
    requires
        FRAME_HEADER_LEN <= limit <= MAX_FRAME_LEN,
        region.len() >= FRAME_HEADER_LEN,
        waddr + region.len() <= usize::MAX,
        raddr + readable.len() <= usize::MAX,
        all_wf(v.args),
        v.ret_value.wf(),
        v.args.len() <= usize::MAX,
        write_response(v, payload_cursor(region, waddr)) is Ok,
        finalize_result(
            limit,
            region.len(),
            write_response(v, payload_cursor(region, waddr))->Ok_0.pos,
        ) is Ok,
        crate::ipc::bytewise::laws::shows_prefix(
            readable,
            sealed(region, write_response(v, payload_cursor(region, waddr))->Ok_0),
            FRAME_HEADER_LEN + write_response(v, payload_cursor(region, waddr))->Ok_0.pos,
        ),
        crate::ipc::bytewise::laws::same_alignment(
            (waddr + FRAME_HEADER_LEN) as usize,
            (raddr + FRAME_HEADER_LEN) as usize,
            METADATA_ALIGN,
        ),
        all_lie_alike(
            v.args,
            (waddr + FRAME_HEADER_LEN) as usize,
            (raddr + FRAME_HEADER_LEN) as usize,
        ),
        lies_alike(
            v.ret_value,
            (waddr + FRAME_HEADER_LEN) as usize,
            (raddr + FRAME_HEADER_LEN) as usize,
        ),
    ensures
        ({
            let written = write_response(v, payload_cursor(region, waddr))->Ok_0;
            let payload = written.bytes.subrange(0, written.pos as int);
            let got = read_response(
                Cursor { bytes: payload, base: (raddr + FRAME_HEADER_LEN) as usize, pos: 0 },
                exclusive,
            );
            &&& framer_decode_spec(limit, readable) == Ok::<
                Option<(usize, Seq<u8>)>,
                LengthPrefixFramerError,
            >(Some(((FRAME_HEADER_LEN + written.pos) as usize, payload)))
            &&& got is Ok
            &&& got->Ok_0.0.request_id == v.request_id
            &&& got->Ok_0.0.method_id == v.method_id
            &&& received_all(v.args, got->Ok_0.0.args, exclusive)
            &&& is_received(v.ret_value, got->Ok_0.0.ret_value, exclusive)
        }),
{
    let start = payload_cursor(region, waddr);
    let written = write_response(v, start)->Ok_0;
    let metadata = MessageMetadata {
        request_id: v.request_id,
        method_id: v.method_id,
        arg_count: v.args.len() as usize,
    };
    crate::ipc::bytewise::laws::lemma_write_extends(
        start,
        None,
        metadata_bytes(metadata),
        METADATA_ALIGN,
    );
    let behind = write_step(start, None, metadata_bytes(metadata), METADATA_ALIGN)->Ok_0;
    lemma_write_args_extends(v.args, behind);
    let rest = write_args(v.args, behind)->Ok_0;
    lemma_write_view_extends(v.ret_value, rest);
    lemma_sealed_frame_decodes(limit, region, written, readable);
    let payload = written.bytes.subrange(0, written.pos as int);
    lemma_response_round_trip(
        v,
        start,
        payload,
        (raddr + FRAME_HEADER_LEN) as usize,
        exclusive,
    );
}

/// Whether `message` is what reading at some cursor, with referents taken as
/// exclusive, gives.
pub open spec fn was_read<B: BytewiseReadOwned>(message: B) -> bool {
    exists|c: Cursor| #[trigger] reads_as(c, Ok::<B, BytewiseError>(message))
}

/// One end of a conversation: a framer and an endpoint.
pub struct Peer<T: Transport> {
    framer: LengthPrefixFramer,
    endpoint: T::Endpoint,
}

impl<T: Transport> Peer<T> {
    /// The framer of the peer.
    pub closed spec fn framer_spec(&self) -> LengthPrefixFramer {
        self.framer
    }

    /// A peer that frames with `framer` and talks through `endpoint`.
    pub fn new(framer: LengthPrefixFramer, endpoint: T::Endpoint) -> (peer: Peer<T>)
        ensures
            peer.framer_spec() == framer,
    {
        Peer { framer, endpoint }
    }

    /// The framer of the peer.
    pub fn framer(&self) -> (framer: &LengthPrefixFramer)
        ensures
            *framer == self.framer_spec(),
    {
        &self.framer
    }

    /// Sends `message` as one frame: takes a write buffer from the endpoint,
    /// builds the frame in it as `seal_message` does, and submits the length
    /// of the frame. If the frame cannot be built, the buffer goes back with
    /// nothing submitted; see `send_outcome` for what the result is.
    pub fn send_message<B: BytewiseWrite>(&mut self, message: &B) -> (r: Result<
        (),
        IpcError<T::Error>,
    >)
        ensures
            final(self).framer_spec() == old(self).framer_spec(),
            send_outcome(old(self).framer_spec().limit_spec(), message, r),
    {
        let mut write_buf = match self.endpoint.write() {
            Ok(write_buf) => write_buf,
            Err(e) => {
                return Err(IpcError::TransportError(e));
            },
        };
        let addr = write_buf.address();
        let ghost granted = write_buf.region().bytes;
        let region = write_buf.as_mut_slice();
        let sealed = seal_message::<B, T::Error>(&self.framer, message, region, addr);
        assert(sealed == seal_spec::<B, T::Error>(
            self.framer.limit_spec(),
            message,
            granted,
            addr,
        ));
        let frame_len = match sealed {
            Ok(frame_len) => frame_len,
            Err(e) => {
                assert(sent_through::<B, T::Error>(
                    self.framer.limit_spec(),
                    message,
                    granted,
                    addr,
                    Err(e),
                ));
                return Err(e);
            },
        };
        match write_buf.submit(frame_len) {
            Ok(()) => {
                assert(sent_through::<B, T::Error>(
                    self.framer.limit_spec(),
                    message,
                    granted,
                    addr,
                    Ok(()),
                ));
                Ok(())
            },
            Err(e) => Err(IpcError::TransportError(e)),
        }
    }

    /// Receives one message: takes a read buffer from the endpoint, reads the
    /// frame at its start as `open_message` does, and consumes the length of
    /// the frame. Returns nothing, and consumes nothing, while the frame is
    /// incomplete. The endpoint decides whether a buffer is had and whether
    /// the frame is given up; but for its errors, the result is what opening
    /// the buffer that was had comes to.
    pub fn receive_message<B: BytewiseReadOwned>(&mut self) -> (r: Result<
        Option<B>,
        IpcError<T::Error>,
    >)
        ensures
            final(self).framer_spec() == old(self).framer_spec(),
            r matches Ok(Some(message)) ==> was_read(message),
            receive_outcome(old(self).framer_spec().limit_spec(), r),
    {
        let read_buf = match self.endpoint.read() {
            Ok(read_buf) => read_buf,
            Err(e) => {
                return Err(IpcError::TransportError(e));
            },
        };
        let addr = read_buf.address();
        let ghost shown = read_buf.region().bytes;
        let found = match open_message::<B, T::Error>(&self.framer, read_buf.as_slice(), addr) {
            Ok(found) => found,
            Err(e) => {
                assert(received_through::<B, T::Error>(
                    self.framer.limit_spec(),
                    shown,
                    addr,
                    Err(e),
                ));
                return Err(e);
            },
        };
        match found {
            None => {
                assert(received_through::<B, T::Error>(
                    self.framer.limit_spec(),
                    shown,
                    addr,
                    Ok(None),
                ));
                Ok(None)
            },
            Some((message, frame_len)) => match read_buf.consume(frame_len) {
                Ok(()) => {
                    assert(received_through::<B, T::Error>(
                        self.framer.limit_spec(),
                        shown,
                        addr,
                        Ok(Some(message)),
                    ));
                    Ok(Some(message))
                },
                Err(e) => Err(IpcError::TransportError(e)),
            },
        }
    }

    /// Sends `request` and receives until a response has arrived. A receipt
    /// may find no whole frame yet; after `polls` such receipts the call
    /// gives up and returns nothing. An error of the sending, or of a
    /// receipt, ends the call and is its result.
    pub fn invoke(&mut self, request: &Request, polls: usize) -> (r: Result<
        Option<Response>,
        IpcError<T::Error>,
    >)
        ensures
            final(self).framer_spec() == old(self).framer_spec(),
            r matches Ok(Some(response)) ==> response.wf() && was_read(response),
            invoke_outcome(old(self).framer_spec().limit_spec(), request, polls, r),
    {
        match self.send_message(request) {
            Ok(()) => {},
            Err(e) => {
                return Err(e);
            },
        }
        let mut left = polls;
        while left > 0
            invariant
                self.framer_spec() == old(self).framer_spec(),
                left <= polls,
                send_outcome(
                    old(self).framer_spec().limit_spec(),
                    request,
                    Ok::<(), IpcError<T::Error>>(()),
                ),
                left < polls ==> receive_outcome(
                    old(self).framer_spec().limit_spec(),
                    Ok::<Option<Response>, IpcError<T::Error>>(None),
                ),
            decreases left,
        {
            match self.receive_message::<Response>() {
                Ok(Some(response)) => {
                    return Ok(Some(response));
                },
                Ok(None) => {},
                Err(e) => {
                    return Err(e);
                },
            }
            left = left - 1;
        }
        Ok(None)
    }
}

/// What `seal_message` returns for a message that is sealed, under the
/// limit `limit`, in a region that holds `region` and lies at `addr`.
pub open spec fn seal_spec<B: BytewiseWrite, E>(
    limit: usize,
    message: &B,
    region: Seq<u8>,
    addr: usize,
) -> Result<usize, IpcError<E>> {
    if region.len() < FRAME_HEADER_LEN {
        Err(
            IpcError::FramerError(
                LengthPrefixFramerError::InsufficientBuffer {
                    required: FRAME_HEADER_LEN,
                    capacity: region.len() as usize,
                },
            ),
        )
    } else {
        match message.write_spec(payload_cursor(region, addr)) {
            Err(e) => Err(IpcError::BytewiseError(e)),
            Ok(written) => match finalize_result(limit, region.len(), written.pos) {
                Err(e) => Err(IpcError::FramerError(e)),
                Ok(frame_len) => Ok(frame_len),
            },
        }
    }
}

/// Whether `r` is what sending `message` comes to when the endpoint hands
/// out a buffer over `region` at `addr` and takes what is submitted: success
/// if the message is sealed in the buffer, else the error of the sealing.
pub open spec fn sent_through<B: BytewiseWrite, E>(
    limit: usize,
    message: &B,
    region: Seq<u8>,
    addr: usize,
    r: Result<(), IpcError<E>>,
) -> bool {
    match seal_spec::<B, E>(limit, message, region, addr) {
        Ok(_) => r == Ok::<(), IpcError<E>>(()),
        Err(e) => r == Err::<(), IpcError<E>>(e),
    }
}

/// Whether `r` is a result of sending `message` under the limit `limit`. The
/// endpoint decides whether a buffer is had and whether the frame is taken;
/// so `r` is an error of the transport, or what the sending comes to in some
/// buffer that the endpoint may hand out.
pub open spec fn send_outcome<B: BytewiseWrite, E>(
    limit: usize,
    message: &B,
    r: Result<(), IpcError<E>>,
) -> bool {
    ||| r matches Err(IpcError::TransportError(_))
    ||| exists|region: Seq<u8>, addr: usize|
        addr + region.len() <= usize::MAX && #[trigger] sent_through(
            limit,
            message,
            region,
            addr,
            r,
        )
}

/// Whether `r` is what receiving comes to when the endpoint hands out a
/// buffer that shows `region` at `addr` and gives up what is consumed: the
/// fault of the frame at the start of the buffer; nothing while that frame
/// is incomplete; else the message that the frame carries, or the error of
/// reading it.
pub open spec fn received_through<B: BytewiseReadOwned, E>(
    limit: usize,
    region: Seq<u8>,
    addr: usize,
    r: Result<Option<B>, IpcError<E>>,
) -> bool {
    match framer_decode_spec(limit, region) {
        Err(e) => r == Err::<Option<B>, IpcError<E>>(IpcError::FramerError(e)),
        Ok(None) => r == Ok::<Option<B>, IpcError<E>>(None),
        Ok(Some((frame_len, payload))) => match r {
            Ok(Some(message)) => reads_as(
                Cursor { bytes: payload, base: (addr + FRAME_HEADER_LEN) as usize, pos: 0 },
                Ok::<B, BytewiseError>(message),
            ),
            Err(IpcError::BytewiseError(e)) => reads_as(
                Cursor { bytes: payload, base: (addr + FRAME_HEADER_LEN) as usize, pos: 0 },
                Err::<B, BytewiseError>(e),
            ),
            _ => false,
        },
    }
}

/// Whether `r` is a result of receiving a message under the limit `limit`.
/// The endpoint decides whether a buffer is had and whether the frame is
/// given up; so `r` is an error of the transport, or what the receiving
/// comes to in some buffer that the endpoint may hand out.
pub open spec fn receive_outcome<B: BytewiseReadOwned, E>(
    limit: usize,
    r: Result<Option<B>, IpcError<E>>,
) -> bool {
    ||| r matches Err(IpcError::TransportError(_))
    ||| exists|region: Seq<u8>, addr: usize|
        addr + region.len() <= usize::MAX && #[trigger] received_through(limit, region, addr, r)
}

/// Whether `r` is a result of sending `request` and receiving at most `polls`
/// times: a response only after the request was sent and a receipt gave it;
/// nothing only after the request was sent and, if there was a receipt, the
/// last one gave nothing; an error only as the result of the sending, or,
/// after the request was sent, as the result of a receipt.
pub open spec fn invoke_outcome<E>(
    limit: usize,
    request: &Request,
    polls: usize,
    r: Result<Option<Response>, IpcError<E>>,
) -> bool {
    match r {
        Ok(Some(response)) => {
            &&& send_outcome(limit, request, Ok::<(), IpcError<E>>(()))
            &&& polls > 0
            &&& receive_outcome(limit, Ok::<Option<Response>, IpcError<E>>(Some(response)))
        },
        Ok(None) => {
            &&& send_outcome(limit, request, Ok::<(), IpcError<E>>(()))
            &&& polls > 0 ==> receive_outcome(limit, Ok::<Option<Response>, IpcError<E>>(None))
        },
        Err(e) => {
            ||| send_outcome(limit, request, Err::<(), IpcError<E>>(e))
            ||| {
                &&& send_outcome(limit, request, Ok::<(), IpcError<E>>(()))
                &&& polls > 0
                &&& receive_outcome(limit, Err::<Option<Response>, IpcError<E>>(e))
            }
        },
    }
}

} // verus!

//! The errors of a peer: those of all layers below it.

use crate::ipc::bytewise::BytewiseError;
use crate::ipc::codec::FrameCodecError;
use crate::ipc::framer::LengthPrefixFramerError;
use vstd::prelude::*;

verus! {

/// What can go wrong between two peers; `E` is the error of the transport.
#[derive(Debug, PartialEq, Eq)]
pub enum IpcError<E> {
    /// The transport failed.
    TransportError(E),
    /// The frame codec failed.
    CodecError(FrameCodecError),
    /// The framer failed.
    FramerError(LengthPrefixFramerError),
    /// Reading or writing a message failed.
    BytewiseError(BytewiseError),
}

} // verus!

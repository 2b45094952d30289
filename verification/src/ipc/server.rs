//! The creating end of a conversation.

use crate::ipc::bytewise::{BytewiseReadOwned, BytewiseWrite};
use crate::ipc::error::IpcError;
use crate::ipc::framer::LengthPrefixFramer;
use crate::ipc::message::{Request, Response};
use crate::ipc::peer::{invoke_outcome, receive_outcome, send_outcome, was_read, Peer};
use crate::ipc::transport::Transport;
use vstd::prelude::*;

verus! {

/// The peer that creates the connection.
pub struct Server<T: Transport>(pub Peer<T>);

impl<T: Transport> Server<T> {
    /// Creates the connection named `addr` on `transport` and frames with
    /// `framer`.
    pub fn create(framer: LengthPrefixFramer, transport: &T, addr: &T::Address) -> (r: Result<
        Server<T>,
        IpcError<T::Error>,
    >)
        ensures
            r matches Ok(server) ==> server.0.framer_spec() == framer,
            r matches Err(e) ==> e is TransportError,
    {
        match transport.create(addr) {
            Ok(endpoint) => Ok(Server(Peer::new(framer, endpoint))),
            Err(e) => Err(IpcError::TransportError(e)),
        }
    }

    /// The peer behind the server.
    pub fn peer(&self) -> (peer: &Peer<T>)
        ensures
            *peer == self.0,
    {
        &self.0
    }

    /// Sends `message` as one frame; see `Peer::send_message`.
    pub fn send_message<B: BytewiseWrite>(&mut self, message: &B) -> (r: Result<
        (),
        IpcError<T::Error>,
    >)
        ensures
            final(self).0.framer_spec() == old(self).0.framer_spec(),
            send_outcome(old(self).0.framer_spec().limit_spec(), message, r),
    {
        self.0.send_message(message)
    }

    /// Receives one message; see `Peer::receive_message`.
    pub fn receive_message<B: BytewiseReadOwned>(&mut self) -> (r: Result<
        Option<B>,
        IpcError<T::Error>,
    >)
        ensures
            final(self).0.framer_spec() == old(self).0.framer_spec(),
            r matches Ok(Some(message)) ==> was_read(message),
            receive_outcome(old(self).0.framer_spec().limit_spec(), r),
    {
        self.0.receive_message()
    }

    /// Sends `request` and receives the response; see `Peer::invoke`.
    pub fn invoke(&mut self, request: &Request, polls: usize) -> (r: Result<
        Option<Response>,
        IpcError<T::Error>,
    >)
        ensures
            final(self).0.framer_spec() == old(self).0.framer_spec(),
            r matches Ok(Some(response)) ==> response.wf() && was_read(response),
            invoke_outcome(old(self).0.framer_spec().limit_spec(), request, polls, r),
    {
        self.0.invoke(request, polls)
    }
}

} // verus!

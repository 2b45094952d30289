//! Request/response IPC over mirrored shared-memory ring buffers.
//!
//! The crate holds the protocol logic of the fabric: page and mapping
//! arithmetic, the futex lock protocol, ring cursors, the frame codec, the
//! aligned byte cursor, and the argument, request and response model. Its
//! functions are proved to meet their contracts; the few calls into std and
//! into the checksum crate that it rests on say so where they stand. Mapping
//! memory, waiting on a futex and moving bytes through shared memory are left
//! to the caller, which drives the state machines defined here.

pub mod ipc;
pub mod sys;

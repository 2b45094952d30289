//! The request: a method and its arguments.

use crate::ipc::bytewise::{
    cursor_fits, write_step, BytewiseError, BytewiseRead, BytewiseReadOwned, BytewiseReader,
    BytewiseWrite, BytewiseWriter, Cursor,
};
use crate::ipc::message::argument::wire::{
    all_lie_alike, all_wf, clone_arguments, lemma_args_round_trip, lemma_write_args_extends, read_args, read_arguments,
    received_all, views, write_args, write_arguments,
};
use crate::ipc::message::argument::{update_spec, Argument, ArgumentFlag, ArgumentView};
use crate::ipc::message::error::MessageError;
use crate::ipc::message::metadata::{
    lemma_metadata_round_trip, metadata_bytes, read_metadata, MessageMetadata, METADATA_ALIGN,
};
use crate::ipc::message::response::Response;
use vstd::prelude::*;

verus! {

/// The source of request ids: a counter that starts at 1 and hands out every
/// number once, in rising order, until it wraps around.
#[derive(Debug)]
pub struct RequestIdCounter {
    next: u64,
}

impl RequestIdCounter {
    /// The id that is handed out next.
    pub closed spec fn next_spec(&self) -> u64 {
        self.next
    }

    /// A counter that has handed out nothing.
    pub fn new() -> (ids: RequestIdCounter)
        ensures
            ids.next_spec() == 1,
    {
        RequestIdCounter { next: 1 }
    }

    /// Hands out the next id.
    pub fn next_id(&mut self) -> (id: u64)
        ensures
            id == old(self).next_spec(),
            final(self).next_spec() == if old(self).next_spec() == u64::MAX {
                0
            } else {
                (old(self).next_spec() + 1) as u64
            },
    {
        let id = self.next;
        self.next = if id == u64::MAX {
            0
        } else {
            id + 1
        };
        id
    }
}

/// A request as a mathematical value.
pub struct RequestView {
    pub request_id: u64,
    pub method_id: u64,
    pub args: Seq<ArgumentView>,
}

/// A call of the method `method_id` with the arguments `arg_list`.
#[derive(Debug)]
pub struct Request {
    request_id: u64,
    method_id: u64,
    arg_list: Vec<Argument>,
}

impl View for Request {
    type V = RequestView;

    closed spec fn view(&self) -> RequestView {
        RequestView {
            request_id: self.request_id,
            method_id: self.method_id,
            args: views(self.arg_list@),
        }
    }
}

/// The arguments `dst` after the first `n` of them have been updated from
/// `src`, in order, and the error that stopped the updating, if any. Only
/// arguments with the OUT flag are updated; after an error nothing more is.
pub open spec fn update_args(dst: Seq<ArgumentView>, src: Seq<ArgumentView>, n: nat) -> (
    Seq<ArgumentView>,
    Option<MessageError>,
)
    decreases n,
{
    if n == 0 {
        (dst, None)
    } else {
        let (before, stopped) = update_args(dst, src, (n - 1) as nat);
        if stopped is Some || !before[n - 1].flag.is_out() {
            (before, stopped)
        } else {
            match update_spec(before[n - 1], src[n - 1]) {
                Ok(updated) => (before.update(n - 1, updated), None),
                Err(e) => (before, Some(e)),
            }
        }
    }
}

/// Writing the request `v` at cursor `c`.
pub open spec fn write_request(v: RequestView, c: Cursor) -> Result<Cursor, BytewiseError> {
    let metadata = MessageMetadata {
        request_id: v.request_id,
        method_id: v.method_id,
        arg_count: v.args.len() as usize,
    };
    match write_step(c, None, metadata_bytes(metadata), METADATA_ALIGN) {
        Err(e) => Err(e),
        Ok(behind) => write_args(v.args, behind),
    }
}

/// Reading a request at cursor `c`.
pub open spec fn read_request(c: Cursor, exclusive: bool) -> Result<
    (RequestView, Cursor),
    BytewiseError,
> {
    match read_metadata(c) {
        Err(e) => Err(e),
        Ok((metadata, behind)) => match read_args(behind, metadata.arg_count as nat, exclusive) {
            Err(e) => Err(e),
            Ok((args, rest)) => Ok(
                (
                    RequestView {
                        request_id: metadata.request_id,
                        method_id: metadata.method_id,
                        args,
                    },
                    rest,
                ),
            ),
        },
    }
}

impl Request {
    /// Every argument satisfies what every argument satisfies.
    pub open spec fn wf(&self) -> bool {
        all_wf(self@.args)
    }

    /// The arguments themselves.
    pub closed spec fn arg_seq(&self) -> Seq<Argument> {
        self.arg_list@
    }

    /// A request without arguments, under the next id of `ids`.
    pub fn empty(ids: &mut RequestIdCounter, method_id: u64) -> (request: Request)
        ensures
            request@ == (RequestView {
                request_id: old(ids).next_spec(),
                method_id,
                args: Seq::empty(),
            }),
            request.wf(),
            final(ids).next_spec() == if old(ids).next_spec() == u64::MAX {
                0
            } else {
                (old(ids).next_spec() + 1) as u64
            },
    {
        let request = Request { request_id: ids.next_id(), method_id, arg_list: Vec::new() };
        assert(request@.args =~= Seq::<ArgumentView>::empty());
        request
    }

    /// A request with one argument, under the next id of `ids`.
    pub fn with_arg(ids: &mut RequestIdCounter, method_id: u64, arg: Argument) -> (request: Request)
        requires
            arg.wf(),
        ensures
            request@ == (RequestView {
                request_id: old(ids).next_spec(),
                method_id,
                args: seq![arg@],
            }),
            request.wf(),
            final(ids).next_spec() == if old(ids).next_spec() == u64::MAX {
                0
            } else {
                (old(ids).next_spec() + 1) as u64
            },
    {
        let mut arg_list = Vec::new();
        arg_list.push(arg);
        let request = Request { request_id: ids.next_id(), method_id, arg_list };
        assert(request@.args =~= seq![arg@]);
        request
    }

    /// A request with the arguments `args`, under the next id of `ids`.
    pub fn with_args(ids: &mut RequestIdCounter, method_id: u64, args: Vec<Argument>) -> (request:
        Request)
        requires
            all_wf(views(args@)),
        ensures
            request@ == (RequestView {
                request_id: old(ids).next_spec(),
                method_id,
                args: views(args@),
            }),
            request.wf(),
            request.arg_seq() == args@,
            final(ids).next_spec() == if old(ids).next_spec() == u64::MAX {
                0
            } else {
                (old(ids).next_spec() + 1) as u64
            },
    {
        Request { request_id: ids.next_id(), method_id, arg_list: args }
    }

    /// The id of the request.
    pub fn request_id(&self) -> (id: u64)
        ensures
            id == self@.request_id,
    {
        self.request_id
    }

    /// The id of the method that is called.
    pub fn method_id(&self) -> (id: u64)
        ensures
            id == self@.method_id,
    {
        self.method_id
    }

    /// The number of arguments.
    pub fn argc(&self) -> (n: usize)
        ensures
            n == self@.args.len(),
    {
        self.arg_list.len()
    }

    /// The arguments.
    pub fn args(&self) -> (args: &[Argument])
        ensures
            args@ == self.arg_seq(),
            views(args@) == self@.args,
    {
        self.arg_list.as_slice()
    }

    /// The arguments, for writing.
    pub fn args_mut(&mut self) -> (args: &mut [Argument])
        ensures
            args@ == old(self).arg_seq(),
            final(self).arg_seq() == final(args)@,
            final(self)@.request_id == old(self)@.request_id,
            final(self)@.method_id == old(self)@.method_id,
    {
        self.arg_list.as_mut_slice()
    }

    /// Takes the values of the OUT arguments from `response`. The response
    /// must carry the id of the request and as many arguments. The OUT
    /// arguments are updated in order; the first that cannot be updated stops
    /// the updating and gives the error. No other argument is touched.
    pub fn update_from(&mut self, response: &Response) -> (r: Result<(), MessageError>)
        requires
            old(self).wf(),
            response.wf(),
        ensures
            final(self)@.request_id == old(self)@.request_id,
            final(self)@.method_id == old(self)@.method_id,
            final(self).wf(),
            if old(self)@.request_id != response@.request_id {
                r == Err::<(), MessageError>(
                    MessageError::RequestIdMismatch {
                        expect: old(self)@.request_id,
                        actual: response@.request_id,
                    },
                ) && final(self)@.args == old(self)@.args
            } else if old(self)@.args.len() != response@.args.len() {
                r == Err::<(), MessageError>(
                    MessageError::ArgumentCountMismatch {
                        expect: old(self)@.args.len() as usize,
                        actual: response@.args.len() as usize,
                    },
                ) && final(self)@.args == old(self)@.args
            } else {
                let (args, stopped) = update_args(
                    old(self)@.args,
                    response@.args,
                    old(self)@.args.len(),
                );
                final(self)@.args == args && r == match stopped {
                    Some(e) => Err::<(), MessageError>(e),
                    None => Ok::<(), MessageError>(()),
                }
            },
    {
        if self.request_id != response.request_id() {
            return Err(
                MessageError::RequestIdMismatch {
                    expect: self.request_id,
                    actual: response.request_id(),
                },
            );
        }
        if self.arg_list.len() != response.argc() {
            return Err(
                MessageError::ArgumentCountMismatch {
                    expect: self.arg_list.len(),
                    actual: response.argc(),
                },
            );
        }
        let count = self.arg_list.len();
        let sources = response.args();
        let mut idx: usize = 0;
        while idx < count
            invariant
                idx <= count,
                count == self.arg_list@.len(),
                count == sources@.len(),
                views(sources@) == response@.args,
                all_wf(response@.args),
                all_wf(views(self.arg_list@)),
                self.request_id == old(self).request_id,
                self.method_id == old(self).method_id,
                old(self)@.request_id == response@.request_id,
                old(self)@.args.len() == count,
                response@.args.len() == count,
                update_args(old(self)@.args, response@.args, idx as nat) == (
                    views(self.arg_list@),
                    None::<MessageError>,
                ),
            decreases count - idx,
        {
            let ghost before = views(self.arg_list@);
            if self.arg_list[idx].flag().contains(ArgumentFlag::arg_out()) {
                assert(before[idx as int].wf());
                assert(response@.args[idx as int].wf());
                assert(response@.args[idx as int] == sources@[idx as int]@);
                assert(before[idx as int] == self.arg_list@[idx as int]@);
                assert(before[idx as int].flag.is_out());
                match self.arg_list[idx].update_from(&sources[idx]) {
                    Ok(()) => {
                        assert(views(self.arg_list@) =~= before.update(
                            idx as int,
                            self.arg_list@[idx as int]@,
                        ));
                    },
                    Err(e) => {
                        assert(views(self.arg_list@) =~= before);
                        assert(update_args(old(self)@.args, response@.args, (idx + 1) as nat) == (
                            before,
                            Some(e),
                        ));
                        proof {
                            lemma_update_args_stopped(
                                old(self)@.args,
                                response@.args,
                                (idx + 1) as nat,
                                count as nat,
                            );
                        }
                        return Err(e);
                    },
                }
            }
            idx = idx + 1;
        }
        Ok(())
    }
}

/// Once an update has stopped, it stays as it is.
pub proof fn lemma_update_args_stopped(
    dst: Seq<ArgumentView>,
    src: Seq<ArgumentView>,
    k: nat,
    n: nat,
)
    requires
        k <= n,
        update_args(dst, src, k).1 is Some,
    ensures
        update_args(dst, src, n) == update_args(dst, src, k),
    decreases n - k,
{
    if k < n {
        lemma_update_args_stopped(dst, src, k, (n - 1) as nat);
    }
}

impl Clone for Request {
    /// A copy of the request: the same ids around copies of the arguments.
    fn clone(&self) -> (copy: Request)
        ensures
            copy@ == self@,
    {
        Request {
            request_id: self.request_id,
            method_id: self.method_id,
            arg_list: clone_arguments(&self.arg_list),
        }
    }
}

impl BytewiseWrite for Request {
    open spec fn write_spec(&self, c: Cursor) -> Result<Cursor, BytewiseError> {
        write_request(self@, c)
    }

    fn write_to<W: BytewiseWriter>(&self, writer: &mut W) -> (r: Result<(), BytewiseError>) {
        let metadata = MessageMetadata {
            request_id: self.request_id,
            method_id: self.method_id,
            arg_count: self.arg_list.len(),
        };
        metadata.write_to(writer)?;
        write_arguments(&self.arg_list, writer)
    }
}

impl Request {
    /// Reads a request; see `read_request`.
    fn read_with<R: BytewiseReader>(reader: &mut R, exclusive: bool) -> (r: Result<
        Request,
        BytewiseError,
    >)
        requires
            cursor_fits(old(reader).source()),
        ensures
            match read_request(old(reader).source(), exclusive) {
                Ok((v, rest)) => r is Ok && r->Ok_0@ == v && r->Ok_0.wf() && final(reader).source()
                    == rest,
                Err(e) => r == Err::<Request, BytewiseError>(e),
            },
    {
        let metadata = MessageMetadata::read_ref(reader)?;
        let arg_list = read_arguments(reader, metadata.arg_count, exclusive)?;
        Ok(Request { request_id: metadata.request_id, method_id: metadata.method_id, arg_list })
    }
}

impl BytewiseReadOwned for Request {
    open spec fn read_spec(
        c: Cursor,
        exclusive: bool,
        result: Result<Request, BytewiseError>,
        rest: Cursor,
    ) -> bool {
        match read_request(c, exclusive) {
            Ok((v, behind)) => result is Ok && result->Ok_0@ == v && result->Ok_0.wf() && rest
                == behind,
            Err(e) => result == Err::<Request, BytewiseError>(e),
        }
    }

    fn read_from<R: BytewiseReader>(reader: &mut R) -> (r: Result<Request, BytewiseError>) {
        Request::read_with(reader, false)
    }

    fn read_from_mut<R: BytewiseReader>(reader: &mut R) -> (r: Result<Request, BytewiseError>) {
        Request::read_with(reader, true)
    }
}

/// Round trip of a request: after the request `v` has been written at
/// cursor `c`, a reader that starts where the writer started, over any
/// buffer that starts as the written one does, up to the end of the request and
/// lies as the written one did, reads a request with the same ids and as many arguments, each with the
/// metadata, flags and bytes of the one written, and ends where the writer
/// ended.
pub proof fn lemma_request_round_trip(
    v: RequestView,
    c: Cursor,
    later: Seq<u8>,
    rbase: usize,
    exclusive: bool,
)
    requires
        all_wf(v.args),
        v.args.len() <= usize::MAX,
        cursor_fits(c),
        rbase + later.len() <= usize::MAX,
        crate::ipc::bytewise::laws::same_alignment(c.base, rbase, METADATA_ALIGN),
        all_lie_alike(v.args, c.base, rbase),
        write_request(v, c) is Ok,
        crate::ipc::bytewise::laws::shows_prefix(
            later,
            write_request(v, c)->Ok_0.bytes,
            write_request(v, c)->Ok_0.pos as int,
        ),
    ensures
        ({
            let next = write_request(v, c)->Ok_0;
            let got = read_request(Cursor { bytes: later, base: rbase, pos: c.pos }, exclusive);
            &&& got is Ok
            &&& got->Ok_0.1 == (Cursor { bytes: later, base: rbase, pos: next.pos })
            &&& got->Ok_0.0.request_id == v.request_id
            &&& got->Ok_0.0.method_id == v.method_id
            &&& received_all(v.args, got->Ok_0.0.args, exclusive)
        }),
{
    let metadata = MessageMetadata {
        request_id: v.request_id,
        method_id: v.method_id,
        arg_count: v.args.len() as usize,
    };
    let behind = write_step(c, None, metadata_bytes(metadata), METADATA_ALIGN)->Ok_0;
    crate::ipc::bytewise::laws::lemma_write_extends(
        c,
        None,
        metadata_bytes(metadata),
        METADATA_ALIGN,
    );
    lemma_write_args_extends(v.args, behind);
    assert(crate::ipc::bytewise::laws::shows_prefix(later, behind.bytes, behind.pos as int));
    lemma_metadata_round_trip(metadata, c, later, rbase);
    lemma_args_round_trip(v.args, behind, later, rbase, exclusive);
}

/// An update changes nothing but the bytes of OUT arguments: every argument
/// keeps its kind, type, size, alignment, length, flags, and the place of its
/// value, and an argument without the OUT flag is left as it was.
pub proof fn lemma_update_keeps_shape(dst: Seq<ArgumentView>, src: Seq<ArgumentView>, n: nat)
    requires
        n <= dst.len(),
        n <= src.len(),
    ensures
        update_args(dst, src, n).0.len() == dst.len(),
        forall|i: int|
            0 <= i < dst.len() ==> {
                let after = #[trigger] update_args(dst, src, n).0[i];
                &&& after.kind == dst[i].kind
                &&& after.type_id == dst[i].type_id
                &&& after.type_size == dst[i].type_size
                &&& after.type_align == dst[i].type_align
                &&& after.len == dst[i].len
                &&& after.flag == dst[i].flag
                &&& after.address() == dst[i].address()
                &&& after.is_inline() == dst[i].is_inline()
                &&& after.is_exclusive() == dst[i].is_exclusive()
                &&& !dst[i].flag.is_out() ==> after == dst[i]
            },
    decreases n,
{
    if n > 0 {
        lemma_update_keeps_shape(dst, src, (n - 1) as nat);
        let before = update_args(dst, src, (n - 1) as nat).0;
        let after = update_args(dst, src, n).0;
        assert forall|i: int| 0 <= i < dst.len() implies {
            let a = #[trigger] update_args(dst, src, n).0[i];
            &&& a.kind == dst[i].kind
            &&& a.type_id == dst[i].type_id
            &&& a.type_size == dst[i].type_size
            &&& a.type_align == dst[i].type_align
            &&& a.len == dst[i].len
            &&& a.flag == dst[i].flag
            &&& a.address() == dst[i].address()
            &&& a.is_inline() == dst[i].is_inline()
            &&& a.is_exclusive() == dst[i].is_exclusive()
            &&& !dst[i].flag.is_out() ==> a == dst[i]
        } by {
            assert(before[i].kind == dst[i].kind);
        }
    }
}

/// Updating a request from the response that was made from it changes
/// nothing: every argument, OUT or not, is left as it was.
pub proof fn lemma_update_from_own_response(args: Seq<ArgumentView>, n: nat)
    requires
        all_wf(args),
        n <= args.len(),
    ensures
        update_args(args, crate::ipc::message::response::response_args(args), n).0 == args,
    decreases n,
{
    if n > 0 {
        lemma_update_from_own_response(args, (n - 1) as nat);
        let src = crate::ipc::message::response::response_args(args);
        let before = update_args(args, src, (n - 1) as nat).0;
        let arg = args[n - 1];
        assert(arg.wf());
        if arg.flag.is_out() {
            assert(src[n - 1] == arg);
            match update_spec(arg, arg) {
                Ok(updated) => {
                    match arg.value {
                        crate::ipc::message::argument::ValueView::Val(inline) => {
                            assert(arg.payload() + inline.subrange(
                                arg.payload().len() as int,
                                inline.len() as int,
                            ) =~= inline);
                        },
                        _ => {},
                    }
                    assert(updated == arg);
                    assert(before.update(n - 1, updated) =~= before);
                },
                Err(_) => {},
            }
        }
    }
}

} // verus!

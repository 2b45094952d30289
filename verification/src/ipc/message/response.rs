//! The response: the return value of a call, and its OUT arguments.

use crate::ipc::bytewise::{
    cursor_fits, write_step, BytewiseError, BytewiseRead, BytewiseReadOwned, BytewiseReader,
    BytewiseWrite, BytewiseWriter, Cursor,
};
use crate::ipc::message::argument::wire::{
    all_wf, read_args, read_arguments, read_view, views, write_args, write_arguments, write_view,
};
use crate::ipc::message::argument::{
    Argument, ArgumentFlag, ArgumentKind, ArgumentView, ValueView,
};
use crate::ipc::message::metadata::{
    metadata_bytes, read_metadata, MessageMetadata, METADATA_ALIGN,
};
use crate::ipc::message::request::Request;
use vstd::prelude::*;

verus! {

/// A response as a mathematical value.
pub struct ResponseView {
    pub request_id: u64,
    pub method_id: u64,
    pub args: Seq<ArgumentView>,
    pub ret_value: ArgumentView,
}

/// The answer to the request `request_id`.
#[derive(Debug)]
pub struct Response {
    request_id: u64,
    method_id: u64,
    arg_list: Vec<Argument>,
    ret_value: Argument,
}

impl View for Response {
    type V = ResponseView;

    closed spec fn view(&self) -> ResponseView {
        ResponseView {
            request_id: self.request_id,
            method_id: self.method_id,
            args: views(self.arg_list@),
            ret_value: self.ret_value@,
        }
    }
}

/// The empty argument as a mathematical value: an inline scalar of the unit
/// type, in a buffer of zeros, that travels in.
pub open spec fn empty_view() -> ArgumentView {
    ArgumentView {
        kind: ArgumentKind::Scalar,
        type_id: 0,
        type_size: 0,
        type_align: 1,
        len: 1,
        value: ValueView::Val(crate::ipc::message::argument::inline_image(Seq::empty())),
        flag: ArgumentFlag::in_spec(),
    }
}

/// The arguments of the response to a request with the arguments `args`:
/// each OUT argument as it is, the empty argument in the place of any other.
pub open spec fn response_args(args: Seq<ArgumentView>) -> Seq<ArgumentView> {
    Seq::new(
        args.len(),
        |i: int|
            if args[i].flag.is_out() {
                args[i]
            } else {
                empty_view()
            },
    )
}

/// Writing the response `v` at cursor `c`.
pub open spec fn write_response(v: ResponseView, c: Cursor) -> Result<Cursor, BytewiseError> {
    let metadata = MessageMetadata {
        request_id: v.request_id,
        method_id: v.method_id,
        arg_count: v.args.len() as usize,
    };
    match write_step(c, None, metadata_bytes(metadata), METADATA_ALIGN) {
        Err(e) => Err(e),
        Ok(behind) => match write_args(v.args, behind) {
            Err(e) => Err(e),
            Ok(rest) => write_view(v.ret_value, rest),
        },
    }
}

/// Reading a response at cursor `c`.
pub open spec fn read_response(c: Cursor, exclusive: bool) -> Result<
    (ResponseView, Cursor),
    BytewiseError,
> {
    match read_metadata(c) {
        Err(e) => Err(e),
        Ok((metadata, behind)) => match read_args(behind, metadata.arg_count as nat, exclusive) {
            Err(e) => Err(e),
            Ok((args, rest)) => match read_view(rest, exclusive) {
                Err(e) => Err(e),
                Ok((ret_value, end)) => Ok(
                    (
                        ResponseView {
                            request_id: metadata.request_id,
                            method_id: metadata.method_id,
                            args,
                            ret_value,
                        },
                        end,
                    ),
                ),
            },
        },
    }
}

impl Response {
    /// Every argument, and the return value, satisfy what every argument
    /// satisfies.
    pub open spec fn wf(&self) -> bool {
        all_wf(self@.args) && self@.ret_value.wf()
    }

    /// The arguments themselves.
    pub closed spec fn arg_seq(&self) -> Seq<Argument> {
        self.arg_list@
    }

    /// A response without arguments, whose return value is the empty
    /// argument.
    pub fn empty(request_id: u64, method_id: u64) -> (response: Response)
        ensures
            response@ == (ResponseView {
                request_id,
                method_id,
                args: Seq::empty(),
                ret_value: empty_view(),
            }),
            response.wf(),
    {
        let response = Response {
            request_id,
            method_id,
            arg_list: Vec::new(),
            ret_value: Argument::empty(),
        };
        assert(response@.args =~= Seq::<ArgumentView>::empty());
        response
    }

    /// The response to `request` with the return value `ret_value`. It
    /// carries the ids of the request and as many arguments: each OUT
    /// argument of the request as it is, and the empty argument in the place
    /// of any other.
    pub fn with_request(request: &Request, ret_value: Argument) -> (response: Response)
        requires
            request.wf(),
            ret_value.wf(),
        ensures
            response@ == (ResponseView {
                request_id: request@.request_id,
                method_id: request@.method_id,
                args: response_args(request@.args),
                ret_value: ret_value@,
            }),
            response.wf(),
    {
        let sources = request.args();
        let count = sources.len();
        let mut arg_list: Vec<Argument> = Vec::new();
        let mut i: usize = 0;
        while i < count
            invariant
                i <= count,
                count == sources@.len(),
                views(sources@) == request@.args,
                all_wf(request@.args),
                arg_list@.len() == i,
                forall|k: int|
                    0 <= k < i ==> (#[trigger] arg_list@[k])@ == response_args(request@.args)[k],
            decreases count - i,
        {
            assert(request@.args[i as int] == sources@[i as int]@);
            let argument = if sources[i].flag().contains(ArgumentFlag::arg_out()) {
                sources[i].clone()
            } else {
                Argument::empty()
            };
            arg_list.push(argument);
            i = i + 1;
        }
        let response = Response {
            request_id: request.request_id(),
            method_id: request.method_id(),
            arg_list,
            ret_value,
        };
        assert(response@.args =~= response_args(request@.args));
        assert forall|k: int| 0 <= k < response@.args.len() implies (
        #[trigger] response@.args[k]).wf() by {
            assert(request@.args[k].wf());
        }
        response
    }

    /// The id of the request that is answered.
    pub fn request_id(&self) -> (id: u64)
        ensures
            id == self@.request_id,
    {
        self.request_id
    }

    /// The id of the method that was called.
    pub fn method_id(&self) -> (id: u64)
        ensures
            id == self@.method_id,
    {
        self.method_id
    }

    /// The number of arguments.
    pub fn argc(&self) -> (n: usize)
        ensures
            n == self@.args.len(),
    {
        self.arg_list.len()
    }

    /// The arguments.
    pub fn args(&self) -> (args: &[Argument])
        ensures
            args@ == self.arg_seq(),
            views(args@) == self@.args,
    {
        self.arg_list.as_slice()
    }

    /// The arguments, for writing.
    pub fn args_mut(&mut self) -> (args: &mut [Argument])
        ensures
            args@ == old(self).arg_seq(),
            final(self).arg_seq() == final(args)@,
            final(self)@.request_id == old(self)@.request_id,
            final(self)@.method_id == old(self)@.method_id,
            final(self)@.ret_value == old(self)@.ret_value,
    {
        self.arg_list.as_mut_slice()
    }

    /// The return value.
    pub fn ret_value(&self) -> (ret: &Argument)
        ensures
            ret@ == self@.ret_value,
    {
        &self.ret_value
    }
}

impl Clone for Response {
    /// A copy of the response: the same ids around copies of the arguments
    /// and of the return value.
    fn clone(&self) -> (copy: Response)
        ensures
            copy@ == self@,
    {
        Response {
            request_id: self.request_id,
            method_id: self.method_id,
            arg_list: crate::ipc::message::argument::wire::clone_arguments(&self.arg_list),
            ret_value: self.ret_value.clone(),
        }
    }
}

impl BytewiseWrite for Response {
    open spec fn write_spec(&self, c: Cursor) -> Result<Cursor, BytewiseError> {
        write_response(self@, c)
    }

    fn write_to<W: BytewiseWriter>(&self, writer: &mut W) -> (r: Result<(), BytewiseError>) {
        let metadata = MessageMetadata {
            request_id: self.request_id,
            method_id: self.method_id,
            arg_count: self.arg_list.len(),
        };
        metadata.write_to(writer)?;
        write_arguments(&self.arg_list, writer)?;
        self.ret_value.write_to(writer)
    }
}

impl Response {
    /// Reads a response; see `read_response`.
    fn read_with<R: BytewiseReader>(reader: &mut R, exclusive: bool) -> (r: Result<
        Response,
        BytewiseError,
    >)
        requires
            cursor_fits(old(reader).source()),
        ensures
            match read_response(old(reader).source(), exclusive) {
                Ok((v, rest)) => r is Ok && r->Ok_0@ == v && r->Ok_0.wf() && final(reader).source()
                    == rest,
                Err(e) => r == Err::<Response, BytewiseError>(e),
            },
    {
        let metadata = MessageMetadata::read_ref(reader)?;
        let arg_list = read_arguments(reader, metadata.arg_count, exclusive)?;
        let ret_value = if exclusive {
            Argument::read_from_mut(reader)?
        } else {
            Argument::read_from(reader)?
        };
        Ok(
            Response {
                request_id: metadata.request_id,
                method_id: metadata.method_id,
                arg_list,
                ret_value,
            },
        )
    }
}

impl BytewiseReadOwned for Response {
    open spec fn read_spec(
        c: Cursor,
        exclusive: bool,
        result: Result<Response, BytewiseError>,
        rest: Cursor,
    ) -> bool {
        match read_response(c, exclusive) {
            Ok((v, behind)) => result is Ok && result->Ok_0@ == v && result->Ok_0.wf() && rest
                == behind,
            Err(e) => result == Err::<Response, BytewiseError>(e),
        }
    }

    fn read_from<R: BytewiseReader>(reader: &mut R) -> (r: Result<Response, BytewiseError>) {
        Response::read_with(reader, false)
    }

    fn read_from_mut<R: BytewiseReader>(reader: &mut R) -> (r: Result<Response, BytewiseError>) {
        Response::read_with(reader, true)
    }
}

/// Round trip of a response: as that of a request, with the return value
/// behind the arguments.
pub proof fn lemma_response_round_trip(
    v: ResponseView,
    c: Cursor,
    later: Seq<u8>,
    rbase: usize,
    exclusive: bool,
)
    requires
        all_wf(v.args),
        v.ret_value.wf(),
        v.args.len() <= usize::MAX,
        cursor_fits(c),
        rbase + later.len() <= usize::MAX,
        crate::ipc::bytewise::laws::same_alignment(c.base, rbase, METADATA_ALIGN),
        crate::ipc::message::argument::wire::all_lie_alike(v.args, c.base, rbase),
        crate::ipc::message::argument::wire::lies_alike(v.ret_value, c.base, rbase),
        write_response(v, c) is Ok,
        crate::ipc::bytewise::laws::shows_prefix(
            later,
            write_response(v, c)->Ok_0.bytes,
            write_response(v, c)->Ok_0.pos as int,
        ),
    ensures
        ({
            let next = write_response(v, c)->Ok_0;
            let got = read_response(Cursor { bytes: later, base: rbase, pos: c.pos }, exclusive);
            &&& got is Ok
            &&& got->Ok_0.1 == (Cursor { bytes: later, base: rbase, pos: next.pos })
            &&& got->Ok_0.0.request_id == v.request_id
            &&& got->Ok_0.0.method_id == v.method_id
            &&& crate::ipc::message::argument::wire::received_all(
                v.args,
                got->Ok_0.0.args,
                exclusive,
            )
            &&& crate::ipc::message::argument::wire::is_received(
                v.ret_value,
                got->Ok_0.0.ret_value,
                exclusive,
            )
        }),
{
    let metadata = MessageMetadata {
        request_id: v.request_id,
        method_id: v.method_id,
        arg_count: v.args.len() as usize,
    };
    let behind = write_step(c, None, metadata_bytes(metadata), METADATA_ALIGN)->Ok_0;
    crate::ipc::bytewise::laws::lemma_write_extends(
        c,
        None,
        metadata_bytes(metadata),
        METADATA_ALIGN,
    );
    crate::ipc::message::argument::wire::lemma_write_args_extends(v.args, behind);
    let rest = write_args(v.args, behind)->Ok_0;
    crate::ipc::message::argument::wire::lemma_write_view_extends(v.ret_value, rest);
    assert(crate::ipc::bytewise::laws::shows_prefix(later, rest.bytes, rest.pos as int));
    assert(crate::ipc::bytewise::laws::shows_prefix(later, behind.bytes, behind.pos as int));
    crate::ipc::message::metadata::lemma_metadata_round_trip(metadata, c, later, rbase);
    crate::ipc::message::argument::wire::lemma_args_round_trip(
        v.args,
        behind,
        later,
        rbase,
        exclusive,
    );
    crate::ipc::message::argument::wire::lemma_argument_round_trip(
        v.ret_value,
        rest,
        later,
        rbase,
        exclusive,
    );
}

} // verus!

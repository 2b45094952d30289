//! What holds of every argument.

use crate::ipc::message::argument::flag::ArgumentFlag;
use crate::ipc::message::argument::view::{
    downcast_bytes, downcast_check, is_aligned, mut_access, ref_access, update_spec,
    validate_spec, ArgumentKind, ArgumentView, TypeDesc, ValueView,
};
use crate::ipc::message::error::MessageError;
use vstd::prelude::*;

verus! {

/// A reference comes back as it went in: an argument made from a shared
/// value that lies at an aligned address downcasts, by reference, to the bytes
/// of that value.
pub proof fn lemma_from_ref_downcast_ref(ty: TypeDesc, addr: usize, bytes: Seq<u8>, flag: ArgumentFlag)
    requires
        bytes.len() == ty.size,
        is_aligned(addr, ty.align),
    ensures
        ({
            let v = ArgumentView {
                kind: ArgumentKind::Scalar,
                type_id: ty.id,
                type_size: ty.size,
                type_align: ty.align,
                len: 1,
                value: ValueView::Ref { addr, bytes },
                flag,
            };
            &&& v.wf()
            &&& downcast_check(v, ty, ArgumentKind::Scalar, ref_access(v, ty.align)) == Ok::<
                (),
                MessageError,
            >(())
            &&& downcast_bytes(v, ty) == bytes
        }),
{
    assert(ty.size * 1 == ty.size) by (nonlinear_arith);
    if ty.size == 0 {
        assert(bytes =~= Seq::<u8>::empty());
    }
}

/// An inline value is never borrowed: a downcast by reference of an inline
/// argument fails, whatever type is asked for, and it fails as an illegal
/// borrow of an inline value whenever the metadata admits the type.
pub proof fn lemma_inline_is_not_borrowed(v: ArgumentView, ty: TypeDesc, kind: ArgumentKind)
    requires
        v.is_inline(),
    ensures
        downcast_check(v, ty, kind, ref_access(v, ty.align)) is Err,
        downcast_check(v, ty, kind, mut_access(v, ty.align)) is Err,
        validate_spec(v, ty, kind) is Ok ==> downcast_check(
            v,
            ty,
            kind,
            ref_access(v, ty.align),
        ) == Err::<(), MessageError>(MessageError::IllegalBorrowOfInlined),
        validate_spec(v, ty, kind) is Ok ==> downcast_check(
            v,
            ty,
            kind,
            mut_access(v, ty.align),
        ) == Err::<(), MessageError>(MessageError::IllegalBorrowOfInlined),
{
}

/// A shared referent is never written: a downcast for writing of a shared
/// argument fails, and an update of it fails unless it has no bytes.
pub proof fn lemma_shared_is_not_written(v: ArgumentView, ty: TypeDesc, kind: ArgumentKind, src: ArgumentView)
    requires
        v.value is Ref,
    ensures
        downcast_check(v, ty, kind, mut_access(v, ty.align)) is Err,
        validate_spec(v, ty, kind) is Ok ==> downcast_check(
            v,
            ty,
            kind,
            mut_access(v, ty.align),
        ) == Err::<(), MessageError>(MessageError::IllegalMutation),
        update_spec(v, src) is Ok ==> update_spec(v, src) == Ok::<ArgumentView, MessageError>(v),
{
}

/// The empty argument is inline, so it is never borrowed: asked for by
/// reference as the unit type, it is refused as an inline value.
pub proof fn lemma_empty_is_not_borrowed()
    ensures
        crate::ipc::message::response::empty_view().wf(),
        crate::ipc::message::response::empty_view().is_inline(),
        downcast_check(
            crate::ipc::message::response::empty_view(),
            TypeDesc { id: 0, size: 0, align: 1 },
            ArgumentKind::Scalar,
            ref_access(crate::ipc::message::response::empty_view(), 1),
        ) == Err::<(), MessageError>(MessageError::IllegalBorrowOfInlined),
        downcast_check(
            crate::ipc::message::response::empty_view(),
            TypeDesc { id: 0, size: 0, align: 1 },
            ArgumentKind::Scalar,
            mut_access(crate::ipc::message::response::empty_view(), 1),
        ) == Err::<(), MessageError>(MessageError::IllegalBorrowOfInlined),
{
}

} // verus!

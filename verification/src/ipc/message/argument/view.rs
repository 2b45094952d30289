//! The argument as a mathematical value, and what its operations come to.

use crate::ipc::message::argument::flag::ArgumentFlag;
use crate::ipc::message::argument::{INLINED_DATA_ALIGN, INLINED_DATA_SIZE};
use crate::ipc::message::error::MessageError;
use vstd::prelude::*;

verus! {

/// Whether an argument is one value or a run of values.
#[derive(Clone, Copy, Debug, PartialEq, Eq, Structural)]
pub enum ArgumentKind {
    Scalar,
    Slice,
}

/// What is known of a type: a token that stands for its identity, and the
/// size and the alignment of its values.
#[derive(Clone, Copy, Debug, PartialEq, Eq, Structural)]
pub struct TypeDesc {
    pub id: u64,
    pub size: usize,
    pub align: usize,
}

impl TypeDesc {
    /// The type of no size that the empty argument holds.
    pub fn unit() -> (ty: TypeDesc)
        ensures
            ty == (TypeDesc { id: 0, size: 0, align: 1 }),
    {
        TypeDesc { id: 0, size: 0, align: 1 }
    }
}

/// How an argument holds its value.
pub enum ValueView {
    /// Inline: the 16 bytes of the inline buffer, of which the first
    /// `type_size` are the value.
    Val(Seq<u8>),
    /// A shared referent at `addr`.
    Ref { addr: usize, bytes: Seq<u8> },
    /// An exclusive referent at `addr`.
    Mut { addr: usize, bytes: Seq<u8> },
}

/// An argument as a mathematical value.
pub struct ArgumentView {
    pub kind: ArgumentKind,
    pub type_id: u64,
    pub type_size: usize,
    pub type_align: usize,
    pub len: usize,
    pub value: ValueView,
    pub flag: ArgumentFlag,
}

impl ArgumentView {
    /// Whether the value is held inline.
    pub open spec fn is_inline(self) -> bool {
        self.value is Val
    }

    /// Whether the value is an exclusive referent.
    pub open spec fn is_exclusive(self) -> bool {
        self.value is Mut
    }

    /// The bytes of the value: all elements, one after the other.
    pub open spec fn payload(self) -> Seq<u8> {
        match self.value {
            ValueView::Val(inline) => inline.subrange(0, self.type_size as int),
            ValueView::Ref { bytes, .. } => bytes,
            ValueView::Mut { bytes, .. } => bytes,
        }
    }

    /// The address of the referent; none for an inline value.
    pub open spec fn address(self) -> Option<usize> {
        match self.value {
            ValueView::Val(_) => None,
            ValueView::Ref { addr, .. } => Some(addr),
            ValueView::Mut { addr, .. } => Some(addr),
        }
    }

    /// The size of all elements together.
    pub open spec fn total(self) -> int {
        self.type_size * self.len
    }

    /// The same argument around other bytes.
    pub open spec fn with_payload(self, bytes: Seq<u8>) -> ArgumentView {
        ArgumentView {
            value: match self.value {
                ValueView::Val(inline) => ValueView::Val(
                    bytes + inline.subrange(bytes.len() as int, inline.len() as int),
                ),
                ValueView::Ref { addr, .. } => ValueView::Ref { addr, bytes },
                ValueView::Mut { addr, .. } => ValueView::Mut { addr, bytes },
            },
            ..self
        }
    }

    /// What every argument satisfies: a scalar has one element; an inline
    /// value is a scalar of at most 16 bytes and alignment at most 16, in a
    /// buffer of 16 bytes; a referent has the bytes of all its elements.
    pub open spec fn wf(self) -> bool {
        &&& self.kind == ArgumentKind::Scalar ==> self.len == 1
        &&& match self.value {
            ValueView::Val(inline) => {
                &&& self.kind == ArgumentKind::Scalar
                &&& self.type_size <= INLINED_DATA_SIZE
                &&& self.type_align <= INLINED_DATA_ALIGN
                &&& inline.len() == INLINED_DATA_SIZE
            },
            ValueView::Ref { bytes, .. } => bytes.len() == self.total(),
            ValueView::Mut { bytes, .. } => bytes.len() == self.total(),
        }
    }
}

/// Whether `addr` is a multiple of `align`.
pub open spec fn is_aligned(addr: usize, align: usize) -> bool {
    align > 0 && addr % align == 0
}

/// Whether the metadata `v` admits reading the argument as `kind` of `ty`;
/// the error otherwise.
pub open spec fn validate_spec(v: ArgumentView, ty: TypeDesc, kind: ArgumentKind) -> Result<
    (),
    MessageError,
> {
    if v.type_id != ty.id {
        Err(MessageError::ArgumentTypeMismatch)
    } else if v.kind == ArgumentKind::Scalar && kind == ArgumentKind::Slice {
        Err(MessageError::ArgumentIsNotSlice)
    } else if v.kind == ArgumentKind::Slice && kind == ArgumentKind::Scalar {
        Err(MessageError::ArgumentIsNotScalar)
    } else if ty.size > 0 && v.type_size != ty.size {
        Err(MessageError::ArgumentTypeSizeMismatch { expect: v.type_size, actual: ty.size })
    } else if ty.size > 0 && v.type_align != ty.align {
        Err(MessageError::ArgumentTypeAlignMismatch { expect: v.type_align, actual: ty.align })
    } else {
        Ok(())
    }
}

/// Reading the value by copy: inline values are always well placed, a
/// referent must lie at an aligned address.
pub open spec fn val_access(v: ArgumentView, align: usize) -> Result<(), MessageError> {
    match v.value {
        ValueView::Val(_) => Ok(()),
        ValueView::Ref { addr, .. } => if is_aligned(addr, align) {
            Ok(())
        } else {
            Err(MessageError::UnalignedAccess)
        },
        ValueView::Mut { addr, .. } => if is_aligned(addr, align) {
            Ok(())
        } else {
            Err(MessageError::UnalignedAccess)
        },
    }
}

/// Borrowing the value: an inline value cannot be borrowed, a referent must
/// lie at an aligned address.
pub open spec fn ref_access(v: ArgumentView, align: usize) -> Result<(), MessageError> {
    match v.value {
        ValueView::Val(_) => Err(MessageError::IllegalBorrowOfInlined),
        _ => val_access(v, align),
    }
}

/// Borrowing the value for writing: as `ref_access`, and the referent must
/// be exclusive.
pub open spec fn mut_access(v: ArgumentView, align: usize) -> Result<(), MessageError> {
    match v.value {
        ValueView::Val(_) => Err(MessageError::IllegalBorrowOfInlined),
        ValueView::Ref { .. } => Err(MessageError::IllegalMutation),
        ValueView::Mut { .. } => val_access(v, align),
    }
}

/// The outcome of a downcast: the error of the metadata check if there is
/// one, else that of the access.
pub open spec fn downcast_check(
    v: ArgumentView,
    ty: TypeDesc,
    kind: ArgumentKind,
    access: Result<(), MessageError>,
) -> Result<(), MessageError> {
    match validate_spec(v, ty, kind) {
        Err(e) => Err(e),
        Ok(()) => access,
    }
}

/// The outcome of updating `dst` from `src`: the new value of `dst`, or the
/// error.
pub open spec fn update_spec(dst: ArgumentView, src: ArgumentView) -> Result<
    ArgumentView,
    MessageError,
> {
    if dst.type_id != src.type_id {
        Err(MessageError::ArgumentTypeMismatch)
    } else if dst.type_size != src.type_size {
        Err(MessageError::ArgumentTypeSizeMismatch { expect: dst.type_size, actual: src.type_size })
    } else if dst.type_align != src.type_align {
        Err(
            MessageError::ArgumentTypeAlignMismatch {
                expect: dst.type_align,
                actual: src.type_align,
            },
        )
    } else if dst.len != src.len {
        Err(MessageError::ArgumentTypeLengthMismatch { expect: dst.len, actual: src.len })
    } else if dst.total() == 0 {
        Ok(dst)
    } else {
        match (src.value, dst.value) {
            (ValueView::Val(_), ValueView::Val(_)) => Ok(dst.with_payload(src.payload())),
            (ValueView::Ref { .. }, ValueView::Mut { .. }) => Ok(dst.with_payload(src.payload())),
            (ValueView::Mut { .. }, ValueView::Mut { .. }) => Ok(dst.with_payload(src.payload())),
            (_, ValueView::Ref { .. }) => Err(MessageError::IllegalMutation),
            _ => Err(MessageError::ArgumentStorageMismatch),
        }
    }
}

/// The bytes that a downcast to `ty` hands out: the value, or nothing for a
/// type of no size.
pub open spec fn downcast_bytes(v: ArgumentView, ty: TypeDesc) -> Seq<u8> {
    if ty.size == 0 {
        Seq::empty()
    } else {
        v.payload()
    }
}

} // verus!

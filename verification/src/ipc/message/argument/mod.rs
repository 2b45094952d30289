//! The argument: one positional value of a request or a response.
//!
//! An argument records what its value is (a type token, the size and the
//! alignment of one element, the number of elements), which way it travels
//! (a set of direction flags), and the value itself: up to 16 bytes inline,
//! or the bytes of a referent together with the address at which the referent
//! lies. A referent is shared or exclusive; only an exclusive one is written.

use crate::ipc::bytewise::DANGLING_ADDRESS;
use crate::ipc::message::error::MessageError;
use vstd::prelude::*;
use vstd::slice::slice_to_vec;

pub mod flag;
pub mod laws;
pub mod view;
pub mod wire;

pub use flag::{ArgumentFlag, ARG_IN_BIT, ARG_OUT_BIT, ARG_VIRT_BIT};
pub use view::{
    downcast_bytes, downcast_check, is_aligned, mut_access, ref_access, update_spec,
    val_access, validate_spec, ArgumentKind, ArgumentView, TypeDesc, ValueView,
};

verus! {

/// Number of bytes that an argument holds inline.
pub const INLINED_DATA_SIZE: usize = 16;

/// Largest alignment of a value that an argument holds inline.
pub const INLINED_DATA_ALIGN: usize = 16;

/// The bytes of a referent and the address at which it lies.
#[derive(Debug)]
pub(crate) struct Referent {
    pub(crate) addr: usize,
    pub(crate) bytes: Vec<u8>,
}

/// The value of an argument.
#[derive(Debug)]
pub(crate) enum ArgumentValue {
    Val([u8; 16]),
    Ref(Referent),
    Mut(Referent),
}

/// One positional value of a request or a response.
#[derive(Debug)]
pub struct Argument {
    kind: ArgumentKind,
    type_id: u64,
    type_size: usize,
    type_align: usize,
    len: usize,
    value: ArgumentValue,
    flag: ArgumentFlag,
}

impl View for Argument {
    type V = ArgumentView;

    closed spec fn view(&self) -> ArgumentView {
        ArgumentView {
            kind: self.kind,
            type_id: self.type_id,
            type_size: self.type_size,
            type_align: self.type_align,
            len: self.len,
            value: match self.value {
                ArgumentValue::Val(inline) => ValueView::Val(inline@),
                ArgumentValue::Ref(r) => ValueView::Ref { addr: r.addr, bytes: r.bytes@ },
                ArgumentValue::Mut(r) => ValueView::Mut { addr: r.addr, bytes: r.bytes@ },
            },
            flag: self.flag,
        }
    }
}

/// `bytes`, followed by zeros up to 16 bytes.
pub open spec fn inline_image(bytes: Seq<u8>) -> Seq<u8>
    recommends
        bytes.len() <= INLINED_DATA_SIZE,
{
    bytes + Seq::new((INLINED_DATA_SIZE - bytes.len()) as nat, |i: int| 0u8)
}

/// The inline buffer that holds `bytes`.
fn inline_from(bytes: &[u8]) -> (inline: [u8; 16])
    requires
        bytes@.len() <= INLINED_DATA_SIZE,
    ensures
        inline@ == inline_image(bytes@),
{
    let mut inline = [0u8; 16];
    let count = bytes.len();
    let mut i: usize = 0;
    while i < count
        invariant
            i <= count,
            count == bytes@.len(),
            count <= 16,
            inline@.len() == 16,
            forall|k: int| 0 <= k < i ==> inline@[k] == bytes@[k],
            forall|k: int| i <= k < 16 ==> inline@[k] == 0u8,
        decreases count - i,
    {
        inline[i] = bytes[i];
        i = i + 1;
    }
    assert(inline@ =~= inline_image(bytes@));
    inline
}

impl Argument {
    /// The argument satisfies what every argument satisfies.
    pub open spec fn wf(&self) -> bool {
        self@.wf()
    }

    /// The token of the value's type.
    pub fn type_id(&self) -> (id: u64)
        ensures
            id == self@.type_id,
    {
        self.type_id
    }

    /// The size of one element.
    pub fn type_size(&self) -> (size: usize)
        ensures
            size == self@.type_size,
    {
        self.type_size
    }

    /// The alignment of one element.
    pub fn type_align(&self) -> (align: usize)
        ensures
            align == self@.type_align,
    {
        self.type_align
    }

    /// The number of elements.
    pub fn len(&self) -> (len: usize)
        ensures
            len == self@.len,
    {
        self.len
    }

    /// The size of all elements together, capped at `usize::MAX`.
    pub fn total_size(&self) -> (size: usize)
        ensures
            size == if self@.total() > usize::MAX {
                usize::MAX as int
            } else {
                self@.total()
            },
    {
        match self.type_size.checked_mul(self.len) {
            Some(size) => size,
            None => usize::MAX,
        }
    }

    /// Whether the argument carries no byte.
    pub fn is_empty(&self) -> (r: bool)
        ensures
            r == (self@.type_size == 0 || self@.len == 0),
    {
        self.type_size == 0 || self.len == 0
    }

    /// The direction flags.
    pub fn flag(&self) -> (flag: ArgumentFlag)
        ensures
            flag == self@.flag,
    {
        self.flag
    }

    /// Whether the argument is a scalar or a slice.
    pub fn kind(&self) -> (kind: ArgumentKind)
        ensures
            kind == self@.kind,
    {
        self.kind
    }

    /// Whether the value is held inline.
    pub fn is_inline(&self) -> (r: bool)
        ensures
            r == self@.is_inline(),
    {
        match &self.value {
            ArgumentValue::Val(_) => true,
            _ => false,
        }
    }

    /// Whether the value is an exclusive referent.
    pub fn is_exclusive(&self) -> (r: bool)
        ensures
            r == self@.is_exclusive(),
    {
        match &self.value {
            ArgumentValue::Mut(_) => true,
            _ => false,
        }
    }

    /// The address of the referent; none for an inline value.
    pub fn address(&self) -> (addr: Option<usize>)
        ensures
            addr == self@.address(),
    {
        match &self.value {
            ArgumentValue::Val(_) => None,
            ArgumentValue::Ref(r) => Some(r.addr),
            ArgumentValue::Mut(r) => Some(r.addr),
        }
    }

    /// The empty argument: an inline scalar of the unit type that travels in.
    pub fn empty() -> (arg: Argument)
        ensures
            arg.wf(),
            arg@ == (ArgumentView {
                kind: ArgumentKind::Scalar,
                type_id: 0,
                type_size: 0,
                type_align: 1,
                len: 1,
                value: ValueView::Val(inline_image(Seq::empty())),
                flag: ArgumentFlag::in_spec(),
            }),
            arg@.is_inline(),
    {
        Argument::from_value(TypeDesc::unit(), &[], ArgumentFlag::arg_in())
    }

    /// A scalar held by value: its bytes are held inline, followed by zeros
    /// up to the 16 bytes of the inline buffer. A value of no size is held
    /// inline as well, in a buffer of zeros.
    pub fn from_value(ty: TypeDesc, bytes: &[u8], flag: ArgumentFlag) -> (arg: Argument)
        requires
            bytes@.len() == ty.size,
            ty.size <= INLINED_DATA_SIZE,
            ty.align <= INLINED_DATA_ALIGN,
        ensures
            arg.wf(),
            arg@ == (ArgumentView {
                kind: ArgumentKind::Scalar,
                type_id: ty.id,
                type_size: ty.size,
                type_align: ty.align,
                len: 1,
                value: ValueView::Val(inline_image(bytes@)),
                flag,
            }),
            arg@.is_inline(),
            arg@.payload() == bytes@,
    {
        let inline = inline_from(bytes);
        assert(inline_image(bytes@).subrange(0, ty.size as int) =~= bytes@);
        Argument {
            kind: ArgumentKind::Scalar,
            type_id: ty.id,
            type_size: ty.size,
            type_align: ty.align,
            len: 1,
            value: ArgumentValue::Val(inline),
            flag,
        }
    }

    /// A scalar that refers to the shared value whose bytes are `bytes` and
    /// which lies at `addr`.
    pub fn from_ref(ty: TypeDesc, addr: usize, bytes: &[u8], flag: ArgumentFlag) -> (arg: Argument)
        requires
            bytes@.len() == ty.size,
        ensures
            arg.wf(),
            arg@ == (ArgumentView {
                kind: ArgumentKind::Scalar,
                type_id: ty.id,
                type_size: ty.size,
                type_align: ty.align,
                len: 1,
                value: ValueView::Ref { addr, bytes: bytes@ },
                flag,
            }),
    {
        assert(ty.size * 1 == ty.size) by (nonlinear_arith);
        Argument {
            kind: ArgumentKind::Scalar,
            type_id: ty.id,
            type_size: ty.size,
            type_align: ty.align,
            len: 1,
            value: ArgumentValue::Ref(Referent { addr, bytes: slice_to_vec(bytes) }),
            flag,
        }
    }

    /// A scalar that refers to the exclusive value whose bytes are `bytes`
    /// and which lies at `addr`.
    pub fn from_mut(ty: TypeDesc, addr: usize, bytes: &[u8], flag: ArgumentFlag) -> (arg: Argument)
        requires
            bytes@.len() == ty.size,
        ensures
            arg.wf(),
            arg@ == (ArgumentView {
                kind: ArgumentKind::Scalar,
                type_id: ty.id,
                type_size: ty.size,
                type_align: ty.align,
                len: 1,
                value: ValueView::Mut { addr, bytes: bytes@ },
                flag,
            }),
    {
        assert(ty.size * 1 == ty.size) by (nonlinear_arith);
        Argument {
            kind: ArgumentKind::Scalar,
            type_id: ty.id,
            type_size: ty.size,
            type_align: ty.align,
            len: 1,
            value: ArgumentValue::Mut(Referent { addr, bytes: slice_to_vec(bytes) }),
            flag,
        }
    }

    /// A scalar that refers, through a raw address, to the shared value
    /// whose bytes are `bytes`. The address is not null, and is not the
    /// dangling address unless the value has no size.
    pub fn from_ptr(ty: TypeDesc, addr: usize, bytes: &[u8], flag: ArgumentFlag) -> (arg: Argument)
        requires
            bytes@.len() == ty.size,
            addr != 0,
            ty.size != 0 ==> addr != DANGLING_ADDRESS,
        ensures
            arg.wf(),
            arg@ == (ArgumentView {
                kind: ArgumentKind::Scalar,
                type_id: ty.id,
                type_size: ty.size,
                type_align: ty.align,
                len: 1,
                value: ValueView::Ref { addr, bytes: bytes@ },
                flag,
            }),
    {
        Argument::from_ref(ty, addr, bytes, flag)
    }

    /// A scalar that refers, through a raw address, to the exclusive value
    /// whose bytes are `bytes`. The address is not null, and is not the
    /// dangling address unless the value has no size.
    pub fn from_mut_ptr(ty: TypeDesc, addr: usize, bytes: &[u8], flag: ArgumentFlag) -> (arg:
        Argument)
        requires
            bytes@.len() == ty.size,
            addr != 0,
            ty.size != 0 ==> addr != DANGLING_ADDRESS,
        ensures
            arg.wf(),
            arg@ == (ArgumentView {
                kind: ArgumentKind::Scalar,
                type_id: ty.id,
                type_size: ty.size,
                type_align: ty.align,
                len: 1,
                value: ValueView::Mut { addr, bytes: bytes@ },
                flag,
            }),
    {
        Argument::from_mut(ty, addr, bytes, flag)
    }

    /// A slice of `len` shared elements whose bytes are `bytes` and which
    /// lies at `addr`.
    pub fn from_slice(ty: TypeDesc, addr: usize, bytes: &[u8], len: usize, flag: ArgumentFlag) -> (arg:
        Argument)
        requires
            bytes@.len() == ty.size * len,
        ensures
            arg.wf(),
            arg@ == (ArgumentView {
                kind: ArgumentKind::Slice,
                type_id: ty.id,
                type_size: ty.size,
                type_align: ty.align,
                len,
                value: ValueView::Ref { addr, bytes: bytes@ },
                flag,
            }),
    {
        Argument {
            kind: ArgumentKind::Slice,
            type_id: ty.id,
            type_size: ty.size,
            type_align: ty.align,
            len,
            value: ArgumentValue::Ref(Referent { addr, bytes: slice_to_vec(bytes) }),
            flag,
        }
    }

    /// A slice of `len` exclusive elements whose bytes are `bytes` and which
    /// lies at `addr`.
    pub fn from_mut_slice(
        ty: TypeDesc,
        addr: usize,
        bytes: &[u8],
        len: usize,
        flag: ArgumentFlag,
    ) -> (arg: Argument)
        requires
            bytes@.len() == ty.size * len,
        ensures
            arg.wf(),
            arg@ == (ArgumentView {
                kind: ArgumentKind::Slice,
                type_id: ty.id,
                type_size: ty.size,
                type_align: ty.align,
                len,
                value: ValueView::Mut { addr, bytes: bytes@ },
                flag,
            }),
    {
        Argument {
            kind: ArgumentKind::Slice,
            type_id: ty.id,
            type_size: ty.size,
            type_align: ty.align,
            len,
            value: ArgumentValue::Mut(Referent { addr, bytes: slice_to_vec(bytes) }),
            flag,
        }
    }

    /// Checks the metadata against the type and the kind asked for.
    pub fn validate_metadata(&self, ty: TypeDesc, expected_kind: ArgumentKind) -> (r: Result<
        (),
        MessageError,
    >)
        ensures
            r == validate_spec(self@, ty, expected_kind),
    {
        if self.type_id != ty.id {
            return Err(MessageError::ArgumentTypeMismatch);
        }
        match (self.kind, expected_kind) {
            (ArgumentKind::Scalar, ArgumentKind::Slice) => {
                return Err(MessageError::ArgumentIsNotSlice);
            },
            (ArgumentKind::Slice, ArgumentKind::Scalar) => {
                return Err(MessageError::ArgumentIsNotScalar);
            },
            _ => {},
        }
        if ty.size > 0 {
            if self.type_size != ty.size {
                return Err(
                    MessageError::ArgumentTypeSizeMismatch {
                        expect: self.type_size,
                        actual: ty.size,
                    },
                );
            }
            if self.type_align != ty.align {
                return Err(
                    MessageError::ArgumentTypeAlignMismatch {
                        expect: self.type_align,
                        actual: ty.align,
                    },
                );
            }
        }
        Ok(())
    }

    /// The bytes of the value, for reading by copy: fails if a referent does
    /// not lie at an address that `align` admits.
    pub fn inner_val_ptr(&self, align: usize) -> (r: Result<&[u8], MessageError>)
        requires
            self.wf(),
        ensures
            match val_access(self@, align) {
                Ok(()) => r is Ok && r->Ok_0@ == self@.payload(),
                Err(e) => r == Err::<&[u8], MessageError>(e),
            },
    {
        match &self.value {
            ArgumentValue::Val(inline) => Ok(array_prefix(inline, self.type_size)),
            ArgumentValue::Ref(referent) => {
                if !address_is_aligned(referent.addr, align) {
                    return Err(MessageError::UnalignedAccess);
                }
                Ok(referent.bytes.as_slice())
            },
            ArgumentValue::Mut(referent) => {
                if !address_is_aligned(referent.addr, align) {
                    return Err(MessageError::UnalignedAccess);
                }
                Ok(referent.bytes.as_slice())
            },
        }
    }

    /// The bytes of the referent, for borrowing: fails if the value is held
    /// inline, or does not lie at an address that `align` admits.
    pub fn inner_ref_ptr(&self, align: usize) -> (r: Result<&[u8], MessageError>)
        ensures
            match ref_access(self@, align) {
                Ok(()) => r is Ok && r->Ok_0@ == self@.payload(),
                Err(e) => r == Err::<&[u8], MessageError>(e),
            },
    {
        match &self.value {
            ArgumentValue::Val(_) => Err(MessageError::IllegalBorrowOfInlined),
            ArgumentValue::Ref(referent) => {
                if !address_is_aligned(referent.addr, align) {
                    return Err(MessageError::UnalignedAccess);
                }
                Ok(referent.bytes.as_slice())
            },
            ArgumentValue::Mut(referent) => {
                if !address_is_aligned(referent.addr, align) {
                    return Err(MessageError::UnalignedAccess);
                }
                Ok(referent.bytes.as_slice())
            },
        }
    }

    /// The bytes of the referent, for writing: fails if the value is held
    /// inline, is shared, or does not lie at an address that `align` admits.
    pub fn inner_mut_ptr(&mut self, align: usize) -> (r: Result<&mut [u8], MessageError>)
        ensures
            match mut_access(old(self)@, align) {
                Ok(()) => r is Ok && r->Ok_0@ == old(self)@.payload() && final(self)@ == old(
                    self,
                )@.with_payload(final(r->Ok_0)@),
                Err(e) => r == Err::<&mut [u8], MessageError>(e) && final(self)@ == old(self)@,
            },
    {
        match &mut self.value {
            ArgumentValue::Val(_) => Err(MessageError::IllegalBorrowOfInlined),
            ArgumentValue::Ref(_) => Err(MessageError::IllegalMutation),
            ArgumentValue::Mut(referent) => {
                if !address_is_aligned(referent.addr, align) {
                    return Err(MessageError::UnalignedAccess);
                }
                Ok(referent.bytes.as_mut_slice())
            },
        }
    }

    /// The value of a scalar of type `ty`, by copy.
    pub fn downcast(&self, ty: TypeDesc) -> (r: Result<Vec<u8>, MessageError>)
        requires
            self.wf(),
        ensures
            match downcast_check(self@, ty, ArgumentKind::Scalar, val_access(self@, ty.align)) {
                Ok(()) => r is Ok && r->Ok_0@ == downcast_bytes(self@, ty),
                Err(e) => r == Err::<Vec<u8>, MessageError>(e),
            },
    {
        self.validate_metadata(ty, ArgumentKind::Scalar)?;
        let bytes = self.inner_val_ptr(ty.align)?;
        if ty.size == 0 {
            return Ok(Vec::new());
        }
        Ok(slice_to_vec(bytes))
    }

    /// The value of a scalar of type `ty`, borrowed from its referent.
    pub fn downcast_ref(&self, ty: TypeDesc) -> (r: Result<&[u8], MessageError>)
        requires
            self.wf(),
        ensures
            match downcast_check(self@, ty, ArgumentKind::Scalar, ref_access(self@, ty.align)) {
                Ok(()) => r is Ok && r->Ok_0@ == downcast_bytes(self@, ty),
                Err(e) => r == Err::<&[u8], MessageError>(e),
            },
    {
        self.validate_metadata(ty, ArgumentKind::Scalar)?;
        let bytes = self.inner_ref_ptr(ty.align)?;
        if ty.size == 0 {
            return Ok(empty_region(bytes));
        }
        Ok(bytes)
    }

    /// The value of a scalar of type `ty`, borrowed from its referent for
    /// writing. What is written becomes the value of the argument.
    pub fn downcast_mut(&mut self, ty: TypeDesc) -> (r: Result<&mut [u8], MessageError>)
        requires
            old(self).wf(),
        ensures
            match downcast_check(
                old(self)@,
                ty,
                ArgumentKind::Scalar,
                mut_access(old(self)@, ty.align),
            ) {
                Ok(()) => r is Ok && r->Ok_0@ == old(self)@.payload() && final(self)@ == old(
                    self,
                )@.with_payload(final(r->Ok_0)@),
                Err(e) => r == Err::<&mut [u8], MessageError>(e) && final(self)@ == old(self)@,
            },
    {
        self.validate_metadata(ty, ArgumentKind::Scalar)?;
        self.inner_mut_ptr(ty.align)
    }

    /// The elements of a slice of type `ty`, borrowed from their referent.
    pub fn downcast_slice(&self, ty: TypeDesc) -> (r: Result<&[u8], MessageError>)
        requires
            self.wf(),
        ensures
            match downcast_check(self@, ty, ArgumentKind::Slice, ref_access(self@, ty.align)) {
                Ok(()) => r is Ok && r->Ok_0@ == downcast_bytes(self@, ty),
                Err(e) => r == Err::<&[u8], MessageError>(e),
            },
    {
        self.validate_metadata(ty, ArgumentKind::Slice)?;
        let bytes = self.inner_ref_ptr(ty.align)?;
        if ty.size == 0 {
            return Ok(empty_region(bytes));
        }
        Ok(bytes)
    }

    /// The elements of a slice of type `ty`, borrowed from their referent
    /// for writing. What is written becomes the value of the argument.
    pub fn downcast_mut_slice(&mut self, ty: TypeDesc) -> (r: Result<&mut [u8], MessageError>)
        requires
            old(self).wf(),
        ensures
            match downcast_check(
                old(self)@,
                ty,
                ArgumentKind::Slice,
                mut_access(old(self)@, ty.align),
            ) {
                Ok(()) => r is Ok && r->Ok_0@ == old(self)@.payload() && final(self)@ == old(
                    self,
                )@.with_payload(final(r->Ok_0)@),
                Err(e) => r == Err::<&mut [u8], MessageError>(e) && final(self)@ == old(self)@,
            },
    {
        self.validate_metadata(ty, ArgumentKind::Slice)?;
        self.inner_mut_ptr(ty.align)
    }

    /// Copies the value of `source` over the value of `self`. The two must
    /// agree in type, size, alignment and length; the destination must not
    /// be shared; an inline value is updated from an inline value, and a
    /// referent from a referent.
    pub fn update_from(&mut self, source: &Argument) -> (r: Result<(), MessageError>)
        requires
            old(self).wf(),
            source.wf(),
        ensures
            match update_spec(old(self)@, source@) {
                Ok(updated) => r is Ok && final(self)@ == updated,
                Err(e) => r == Err::<(), MessageError>(e) && final(self)@ == old(self)@,
            },
            final(self).wf(),
    {
        if self.type_id != source.type_id {
            return Err(MessageError::ArgumentTypeMismatch);
        }
        if self.type_size != source.type_size {
            return Err(
                MessageError::ArgumentTypeSizeMismatch {
                    expect: self.type_size,
                    actual: source.type_size,
                },
            );
        }
        if self.type_align != source.type_align {
            return Err(
                MessageError::ArgumentTypeAlignMismatch {
                    expect: self.type_align,
                    actual: source.type_align,
                },
            );
        }
        if self.len != source.len {
            return Err(
                MessageError::ArgumentTypeLengthMismatch { expect: self.len, actual: source.len },
            );
        }
        let total_size = self.total_size();
        if total_size == 0 {
            proof {
                lemma_total_zero(self.type_size as int, self.len as int);
            }
            return Ok(());
        }
        match &source.value {
            ArgumentValue::Val(src) => {
                match self.value {
                    ArgumentValue::Val(dst) => {
                        let updated = inline_update(&dst, array_prefix(src, self.type_size));
                        self.value = ArgumentValue::Val(updated);
                        Ok(())
                    },
                    ArgumentValue::Ref(_) => Err(MessageError::IllegalMutation),
                    ArgumentValue::Mut(_) => Err(MessageError::ArgumentStorageMismatch),
                }
            },
            ArgumentValue::Ref(src) => self.update_referent(src),
            ArgumentValue::Mut(src) => self.update_referent(src),
        }
    }

    /// Copies the bytes of the referent `src` over the referent of `self`.
    fn update_referent(&mut self, src: &Referent) -> (r: Result<(), MessageError>)
        requires
            old(self).wf(),
            src.bytes@.len() == old(self)@.total(),
        ensures
            match old(self)@.value {
                ValueView::Val(_) => r == Err::<(), MessageError>(
                    MessageError::ArgumentStorageMismatch,
                ) && final(self)@ == old(self)@,
                ValueView::Ref { .. } => r == Err::<(), MessageError>(
                    MessageError::IllegalMutation,
                ) && final(self)@ == old(self)@,
                ValueView::Mut { .. } => r is Ok && final(self)@ == old(self)@.with_payload(
                    src.bytes@,
                ),
            },
            final(self).wf(),
    {
        let addr = match &self.value {
            ArgumentValue::Val(_) => {
                return Err(MessageError::ArgumentStorageMismatch);
            },
            ArgumentValue::Ref(_) => {
                return Err(MessageError::IllegalMutation);
            },
            ArgumentValue::Mut(dst) => dst.addr,
        };
        self.value = ArgumentValue::Mut(Referent { addr, bytes: slice_to_vec(src.bytes.as_slice()) });
        Ok(())
    }
}

impl Clone for Argument {
    /// A copy of the argument, referent included.
    fn clone(&self) -> (copy: Argument)
        ensures
            copy@ == self@,
    {
        let value = match &self.value {
            ArgumentValue::Val(inline) => ArgumentValue::Val(*inline),
            ArgumentValue::Ref(r) => ArgumentValue::Ref(
                Referent { addr: r.addr, bytes: slice_to_vec(r.bytes.as_slice()) },
            ),
            ArgumentValue::Mut(r) => ArgumentValue::Mut(
                Referent { addr: r.addr, bytes: slice_to_vec(r.bytes.as_slice()) },
            ),
        };
        Argument {
            kind: self.kind,
            type_id: self.type_id,
            type_size: self.type_size,
            type_align: self.type_align,
            len: self.len,
            value,
            flag: self.flag,
        }
    }
}

/// A product of two sizes is zero only if one of them is.
proof fn lemma_total_zero(size: int, len: int)
    requires
        0 <= size,
        0 <= len,
        size * len == 0,
    ensures
        size == 0 || len == 0,
{
    assert(size == 0 || len == 0) by (nonlinear_arith)
        requires
            0 <= size,
            0 <= len,
            size * len == 0,
    ;
}

/// The empty region at the start of `bytes`.
fn empty_region(bytes: &[u8]) -> (region: &[u8])
    ensures
        region@ == Seq::<u8>::empty(),
{
    let region = &bytes[0..0];
    assert(region@ =~= Seq::<u8>::empty());
    region
}

/// The inline buffer `dst` with its first bytes replaced by `src`.
fn inline_update(dst: &[u8; 16], src: &[u8]) -> (updated: [u8; 16])
    requires
        src@.len() <= INLINED_DATA_SIZE,
    ensures
        updated@ == src@ + dst@.subrange(src@.len() as int, 16),
{
    let mut updated = *dst;
    let count = src.len();
    let mut i: usize = 0;
    while i < count
        invariant
            i <= count,
            count == src@.len(),
            count <= 16,
            updated@.len() == 16,
            forall|k: int| 0 <= k < i ==> updated@[k] == src@[k],
            forall|k: int| i <= k < 16 ==> updated@[k] == dst@[k],
        decreases count - i,
    {
        updated[i] = src[i];
        i = i + 1;
    }
    assert(updated@ =~= src@ + dst@.subrange(src@.len() as int, 16));
    updated
}

/// Whether `addr` is a multiple of `align`.
pub fn address_is_aligned(addr: usize, align: usize) -> (r: bool)
    ensures
        r == is_aligned(addr, align),
{
    align > 0 && addr % align == 0
}

/// The first `count` bytes of an inline buffer.
fn array_prefix(inline: &[u8; 16], count: usize) -> (prefix: &[u8])
    requires
        count <= INLINED_DATA_SIZE,
    ensures
        prefix@ == inline@.subrange(0, count as int),
{
    &inline[0..count]
}

} // verus!

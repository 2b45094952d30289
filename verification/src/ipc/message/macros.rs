//! Short ways to make arguments.

use crate::ipc::message::argument::{
    Argument, ArgumentFlag, ArgumentKind, TypeDesc, ValueView, INLINED_DATA_ALIGN,
    INLINED_DATA_SIZE,
};
use vstd::prelude::*;

verus! {

/// What can be turned into an argument.
pub trait IntoArgument: Sized {
    /// Whether the value describes itself soundly: its bytes are as many as
    /// its type and length say.
    spec fn sound(&self) -> bool;

    /// The kind of the argument that the value turns into.
    spec fn kind_spec(&self) -> ArgumentKind;

    /// The type of the value.
    spec fn type_spec(&self) -> TypeDesc;

    /// Turns the value into an argument with the flags `flag`.
    fn into_arg(self, flag: ArgumentFlag) -> (arg: Argument)
        requires
            self.sound(),
        ensures
            arg.wf(),
            arg@.flag == flag,
            arg@.kind == self.kind_spec(),
            arg@.type_id == self.type_spec().id,
            arg@.type_size == self.type_spec().size,
            arg@.type_align == self.type_spec().align,
    ;
}

/// A value of type `ty` that is passed by value.
pub struct ArgValue<'a> {
    pub ty: TypeDesc,
    pub bytes: &'a [u8],
}

/// A value of type `ty` at `addr` that is passed by shared reference.
pub struct ArgRef<'a> {
    pub ty: TypeDesc,
    pub addr: usize,
    pub bytes: &'a [u8],
}

/// A value of type `ty` at `addr` that is passed by exclusive reference.
pub struct ArgMut<'a> {
    pub ty: TypeDesc,
    pub addr: usize,
    pub bytes: &'a [u8],
}

/// `len` values of type `ty` at `addr` that are passed as a shared slice.
pub struct ArgSlice<'a> {
    pub ty: TypeDesc,
    pub addr: usize,
    pub bytes: &'a [u8],
    pub len: usize,
}

/// `len` values of type `ty` at `addr` that are passed as an exclusive
/// slice.
pub struct ArgMutSlice<'a> {
    pub ty: TypeDesc,
    pub addr: usize,
    pub bytes: &'a [u8],
    pub len: usize,
}

impl<'a> IntoArgument for ArgValue<'a> {
    open spec fn sound(&self) -> bool {
        &&& self.bytes@.len() == self.ty.size
        &&& self.ty.size <= INLINED_DATA_SIZE
        &&& self.ty.align <= INLINED_DATA_ALIGN
    }

    open spec fn kind_spec(&self) -> ArgumentKind {
        ArgumentKind::Scalar
    }

    open spec fn type_spec(&self) -> TypeDesc {
        self.ty
    }

    fn into_arg(self, flag: ArgumentFlag) -> (arg: Argument)
        ensures
            arg@.payload() == self.bytes@,
            arg@.is_inline(),
    {
        Argument::from_value(self.ty, self.bytes, flag)
    }
}

impl<'a> IntoArgument for ArgRef<'a> {
    open spec fn sound(&self) -> bool {
        self.bytes@.len() == self.ty.size
    }

    open spec fn kind_spec(&self) -> ArgumentKind {
        ArgumentKind::Scalar
    }

    open spec fn type_spec(&self) -> TypeDesc {
        self.ty
    }

    fn into_arg(self, flag: ArgumentFlag) -> (arg: Argument)
        ensures
            arg@.value == (ValueView::Ref { addr: self.addr, bytes: self.bytes@ }),
    {
        Argument::from_ref(self.ty, self.addr, self.bytes, flag)
    }
}

impl<'a> IntoArgument for ArgMut<'a> {
    open spec fn sound(&self) -> bool {
        self.bytes@.len() == self.ty.size
    }

    open spec fn kind_spec(&self) -> ArgumentKind {
        ArgumentKind::Scalar
    }

    open spec fn type_spec(&self) -> TypeDesc {
        self.ty
    }

    fn into_arg(self, flag: ArgumentFlag) -> (arg: Argument)
        ensures
            arg@.value == (ValueView::Mut { addr: self.addr, bytes: self.bytes@ }),
    {
        Argument::from_mut(self.ty, self.addr, self.bytes, flag)
    }
}

impl<'a> IntoArgument for ArgSlice<'a> {
    open spec fn sound(&self) -> bool {
        self.bytes@.len() == self.ty.size * self.len
    }

    open spec fn kind_spec(&self) -> ArgumentKind {
        ArgumentKind::Slice
    }

    open spec fn type_spec(&self) -> TypeDesc {
        self.ty
    }

    fn into_arg(self, flag: ArgumentFlag) -> (arg: Argument)
        ensures
            arg@.value == (ValueView::Ref { addr: self.addr, bytes: self.bytes@ }),
            arg@.len == self.len,
    {
        Argument::from_slice(self.ty, self.addr, self.bytes, self.len, flag)
    }
}

impl<'a> IntoArgument for ArgMutSlice<'a> {
    open spec fn sound(&self) -> bool {
        self.bytes@.len() == self.ty.size * self.len
    }

    open spec fn kind_spec(&self) -> ArgumentKind {
        ArgumentKind::Slice
    }

    open spec fn type_spec(&self) -> TypeDesc {
        self.ty
    }

    fn into_arg(self, flag: ArgumentFlag) -> (arg: Argument)
        ensures
            arg@.value == (ValueView::Mut { addr: self.addr, bytes: self.bytes@ }),
            arg@.len == self.len,
    {
        Argument::from_mut_slice(self.ty, self.addr, self.bytes, self.len, flag)
    }
}

/// The bits of the default flag together with those of `flags`.
pub open spec fn flag_bits(flags: Seq<ArgumentFlag>) -> u32
    decreases flags.len(),
{
    if flags.len() == 0 {
        ArgumentFlag::in_spec().bits
    } else {
        flag_bits(flags.drop_last()) | flags.last().bits
    }
}

/// The default flag together with the flags `flags`.
pub fn arg_flag(flags: &[ArgumentFlag]) -> (flag: ArgumentFlag)
    ensures
        flag.bits == flag_bits(flags@),
{
    let mut flag = ArgumentFlag::default();
    let count = flags.len();
    let mut i: usize = 0;
    assert(flags@.take(0) =~= Seq::<ArgumentFlag>::empty());
    while i < count
        invariant
            i <= count,
            count == flags@.len(),
            flag.bits == flag_bits(flags@.take(i as int)),
        decreases count - i,
    {
        assert(flags@.take(i + 1).drop_last() =~= flags@.take(i as int));
        flag.insert(flags[i]);
        i = i + 1;
    }
    assert(flags@.take(count as int) =~= flags@);
    flag
}

} // verus!

//! Errors of the message layer.

use vstd::prelude::*;

verus! {

/// Why an argument cannot be read as asked, or a response does not fit its
/// request.
#[allow(inconsistent_fields)]
#[derive(Clone, Copy, Debug, PartialEq, Eq, Structural)]
pub enum MessageError {
    /// The response answers another request.
    RequestIdMismatch { expect: u64, actual: u64 },
    /// Request and response differ in the number of arguments.
    ArgumentCountMismatch { expect: usize, actual: usize },
    /// Source and destination of an update are stored in ways that cannot
    /// be copied between.
    ArgumentStorageMismatch,
    /// The argument holds a value of another type.
    ArgumentTypeMismatch,
    /// The element size is not that of the type asked for.
    ArgumentTypeSizeMismatch { expect: usize, actual: usize },
    /// The element alignment is not that of the type asked for.
    ArgumentTypeAlignMismatch { expect: usize, actual: usize },
    /// Source and destination of an update differ in the number of elements.
    ArgumentTypeLengthMismatch { expect: usize, actual: usize },
    /// A slice was asked for as a scalar.
    ArgumentIsNotScalar,
    /// A scalar was asked for as a slice.
    ArgumentIsNotSlice,
    /// The value does not lie at an address that its alignment admits.
    UnalignedAccess,
    /// A shared value was asked for as writable.
    IllegalMutation,
    /// An inline value was asked for by reference.
    IllegalBorrowOfInlined,
}

} // verus!

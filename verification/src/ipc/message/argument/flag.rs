//! The direction flags of an argument.

use vstd::prelude::*;

verus! {

/// The directions in which an argument travels: a set of flags.
#[derive(Clone, Copy, Debug, PartialEq, Eq, Structural)]
pub struct ArgumentFlag {
    pub bits: u32,
}

/// Bit of the flag `ARG_IN`.
pub const ARG_IN_BIT: u32 = 1;

/// Bit of the flag `ARG_OUT`.
pub const ARG_OUT_BIT: u32 = 2;

/// Bit of the flag `ARG_VIRT`.
pub const ARG_VIRT_BIT: u32 = 4;

impl ArgumentFlag {
    /// The flag of a value that the caller passes in.
    pub open spec fn in_spec() -> ArgumentFlag {
        ArgumentFlag { bits: ARG_IN_BIT }
    }

    /// The flag of a value that the caller passes in.
    pub fn arg_in() -> (flag: ArgumentFlag)
        ensures
            flag == ArgumentFlag::in_spec(),
    {
        ArgumentFlag { bits: ARG_IN_BIT }
    }

    /// The flag of a value that the callee writes and the caller takes back.
    pub fn arg_out() -> (flag: ArgumentFlag)
        ensures
            flag.bits == ARG_OUT_BIT,
            flag.is_out(),
    {
        assert(2u32 & 2u32 == 2u32) by (bit_vector);
        ArgumentFlag { bits: ARG_OUT_BIT }
    }

    /// The flag of a value that names memory of the callee's side.
    pub fn arg_virt() -> (flag: ArgumentFlag)
        ensures
            flag.bits == ARG_VIRT_BIT,
    {
        ArgumentFlag { bits: ARG_VIRT_BIT }
    }

    /// Whether every flag of `other` is set in `self`.
    pub open spec fn contains_spec(self, other: ArgumentFlag) -> bool {
        self.bits & other.bits == other.bits
    }

    /// Whether the flag `ARG_OUT` is set.
    pub open spec fn is_out(self) -> bool {
        self.bits & ARG_OUT_BIT == ARG_OUT_BIT
    }

    /// The set with no flag.
    pub fn empty() -> (flag: ArgumentFlag)
        ensures
            flag.bits == 0,
    {
        ArgumentFlag { bits: 0 }
    }

    /// The set with the given bits, known or not.
    pub fn from_bits_retain(bits: u32) -> (flag: ArgumentFlag)
        ensures
            flag.bits == bits,
    {
        ArgumentFlag { bits }
    }

    /// The bits of the set.
    pub fn bits(&self) -> (bits: u32)
        ensures
            bits == self.bits,
    {
        self.bits
    }

    /// Whether every flag of `other` is set in `self`.
    pub fn contains(&self, other: ArgumentFlag) -> (r: bool)
        ensures
            r == self.contains_spec(other),
    {
        self.bits & other.bits == other.bits
    }

    /// The flags of `self` together with those of `other`.
    pub fn union(self, other: ArgumentFlag) -> (flag: ArgumentFlag)
        ensures
            flag.bits == self.bits | other.bits,
            flag.contains_spec(self),
            flag.contains_spec(other),
    {
        let a = self.bits;
        let b = other.bits;
        assert((a | b) & a == a) by (bit_vector);
        assert((a | b) & b == b) by (bit_vector);
        ArgumentFlag { bits: a | b }
    }

    /// Adds the flags of `other` to `self`.
    pub fn insert(&mut self, other: ArgumentFlag)
        ensures
            final(self).bits == old(self).bits | other.bits,
    {
        self.bits = self.bits | other.bits;
    }
}

impl Default for ArgumentFlag {
    /// An argument travels in, unless it says otherwise.
    fn default() -> (flag: ArgumentFlag)
        ensures
            flag == ArgumentFlag::in_spec(),
    {
        ArgumentFlag::arg_in()
    }
}

} // verus!

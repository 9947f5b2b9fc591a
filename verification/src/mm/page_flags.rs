//! The permission mask of a page.

use vstd::prelude::*;

verus! {

/// Readable.
pub const R: u8 = 0b0000_0001;

/// Writable.
pub const W: u8 = 0b0000_0010;

/// Executable.
pub const X: u8 = 0b0000_0100;

/// The page has been read or written.
pub const ACCESSED: u8 = 0b0000_1000;

/// The page has been written.
pub const DIRTY: u8 = 0b0001_0000;

/// A bit left to software.
pub const AVAIL2: u8 = 0b1000_0000;

/// Every bit that has a meaning.
pub const ALL: u8 = 0b1001_1111;

/// Page protection permissions and access status, one bit each.
///
/// Bits without a meaning are never set.
#[derive(Clone, Copy, Debug, PartialEq, Eq, Structural)]
pub struct PageFlags {
    bits: u8,
}

impl PageFlags {
    /// The mask as a number.
    pub closed spec fn spec_bits(&self) -> u8 {
        self.bits
    }

    /// Whether only bits with a meaning are set, which holds of every mask
    /// that this type's functions return.
    pub open spec fn wf(&self) -> bool {
        self.bits() & !ALL == 0
    }

    /// Whether every bit of `other` is set in `self`.
    pub open spec fn spec_contains(&self, other: PageFlags) -> bool {
        self.bits() & other.bits() == other.bits()
    }

    /// The mask that holds the bits of `bits` that have a meaning.
    pub closed spec fn spec_from_bits_truncate(bits: u8) -> PageFlags {
        PageFlags { bits: bits & ALL }
    }

    /// Masks are equal when their bits are.
    pub proof fn lemma_bits_injective(a: PageFlags, b: PageFlags)
        ensures
            a.bits() == b.bits() <==> a == b,
    {
    }

    /// The bits of the mask made of `bits` are those of `bits` that have a
    /// meaning.
    pub proof fn lemma_from_bits_truncate(bits: u8)
        ensures
            Self::from_bits_truncate(bits).bits() == bits & ALL,
            Self::from_bits_truncate(bits).wf(),
    {
        assert((bits & ALL) & !ALL == 0) by (bit_vector);
    }

    /// The mask with no bit set.
    pub fn empty() -> (r: PageFlags)
        ensures
            r.bits() == 0,
            r.wf(),
    {
        assert(0u8 & !ALL == 0) by (bit_vector);
        PageFlags { bits: 0 }
    }

    /// The mask that holds the bits of `bits` that have a meaning; the others
    /// are dropped.
    #[verifier::when_used_as_spec(spec_from_bits_truncate)]
    pub fn from_bits_truncate(bits: u8) -> (r: PageFlags)
        ensures
            r == Self::from_bits_truncate(bits),
            r.bits() == bits & ALL,
            r.wf(),
    {
        assert((bits & ALL) & !ALL == 0) by (bit_vector);
        PageFlags { bits: bits & ALL }
    }

    /// The mask as a number.
    #[verifier::when_used_as_spec(spec_bits)]
    pub fn bits(&self) -> (r: u8)
        ensures
            r == self.bits(),
    {
        self.bits
    }

    /// Whether every bit of `other` is set in `self`.
    #[verifier::when_used_as_spec(spec_contains)]
    pub fn contains(&self, other: PageFlags) -> (r: bool)
        ensures
            r == self.contains(other),
    {
        self.bits & other.bits == other.bits
    }

    /// The mask with the bits of both.
    pub fn union(self, other: PageFlags) -> (r: PageFlags)
        ensures
            r.bits() == self.bits() | other.bits(),
            self.wf() && other.wf() ==> r.wf(),
    {
        let a: u8 = self.bits;
        let b: u8 = other.bits;
        assert(a & !ALL == 0 && b & !ALL == 0 ==> (a | b) & !ALL == 0) by (bit_vector);
        PageFlags { bits: a | b }
    }

    /// Clears the bits of `other`.
    pub fn remove(&mut self, other: PageFlags)
        ensures
            final(self).bits() == old(self).bits() & !other.bits(),
            old(self).wf() ==> final(self).wf(),
    {
        let a: u8 = self.bits;
        let b: u8 = other.bits;
        assert(a & !ALL == 0 ==> (a & !b) & !ALL == 0) by (bit_vector);
        self.bits = a & !b;
    }

    /// Whether a page with this mask may be read.
    pub open spec fn spec_readable(&self) -> bool {
        self.bits() & R == R
    }

    /// Whether a page with this mask may be written.
    pub open spec fn spec_writable(&self) -> bool {
        self.bits() & W == W
    }

    /// Whether a page with this mask may be read.
    #[verifier::when_used_as_spec(spec_readable)]
    pub fn readable(&self) -> (r: bool)
        ensures
            r == self.readable(),
    {
        self.bits & R == R
    }

    /// Whether a page with this mask may be written.
    #[verifier::when_used_as_spec(spec_writable)]
    pub fn writable(&self) -> (r: bool)
        ensures
            r == self.writable(),
    {
        self.bits & W == W
    }
}

} // verus!

//! Page table entries.

use vstd::prelude::*;

use super::addr::PhysAddr;

verus! {

/// A page table entry of some architecture.
///
/// An entry is seen through three projections (its valid bit, its huge bit
/// and the physical address it holds) and through the value each setter
/// produces. Setting one projection leaves the two others as they were.
pub trait PageTableEntry: Sized + Copy + Clone {
    /// Whether the entry is valid.
    spec fn spec_valid(&self) -> bool;

    /// The physical address held by the entry.
    spec fn spec_paddr(&self) -> usize;

    /// Whether the entry maps a huge page.
    spec fn spec_huge(&self) -> bool;

    /// The address that the entry holds after `set_paddr(paddr)`.
    spec fn spec_addr_of(paddr: usize) -> usize;

    /// The entry after `set_paddr(paddr)`.
    spec fn spec_with_paddr(self, paddr: usize) -> Self;

    /// The entry after `set_valid(valid)`.
    spec fn spec_with_valid(self, valid: bool) -> Self;

    /// The entry after `set_is_huge(huge)`.
    spec fn spec_with_huge(self, huge: bool) -> Self;

    fn valid(&self) -> (r: bool)
        ensures
            r == self.spec_valid(),
    ;

    fn paddr(&self) -> (r: PhysAddr)
        ensures
            r@ == self.spec_paddr(),
    ;

    fn set_paddr(&mut self, paddr: PhysAddr)
        ensures
            *final(self) == old(self).spec_with_paddr(paddr@),
            final(self).spec_paddr() == Self::spec_addr_of(paddr@),
            final(self).spec_valid() == old(self).spec_valid(),
            final(self).spec_huge() == old(self).spec_huge(),
    ;

    fn set_valid(&mut self, valid: bool)
        ensures
            *final(self) == old(self).spec_with_valid(valid),
            final(self).spec_valid() == valid,
            final(self).spec_paddr() == old(self).spec_paddr(),
            final(self).spec_huge() == old(self).spec_huge(),
    ;

    fn is_huge(&self) -> (r: bool)
        ensures
            r == self.spec_huge(),
    ;

    fn set_is_huge(&mut self, huge: bool)
        ensures
            *final(self) == old(self).spec_with_huge(huge),
            final(self).spec_huge() == huge,
            final(self).spec_valid() == old(self).spec_valid(),
            final(self).spec_paddr() == old(self).spec_paddr(),
    ;
}

/// Bit 0 of a mock entry: the entry is valid.
pub const MOCK_VALID_BIT: usize = 1;

/// Bit 1 of a mock entry: the entry maps a huge page.
pub const MOCK_HUGE_BIT: usize = 2;

/// The low twelve bits of a mock entry hold flags, the others the address.
pub const MOCK_FLAG_MASK: usize = 0xfff;

/// A plain entry layout for examples and tests: bit 0 valid, bit 1 huge,
/// bits 12 and up the physical address.
#[derive(Clone, Copy, Debug, PartialEq, Eq, Structural)]
pub struct MockPte {
    bits: usize,
}

impl MockPte {
    /// The raw bits of the entry.
    pub closed spec fn bits_spec(&self) -> usize {
        self.bits
    }

    /// An empty (invalid) entry.
    pub fn new() -> (r: Self)
        ensures
            r.bits_spec() == 0,
            !r.spec_valid(),
            !r.spec_huge(),
            r.spec_paddr() == 0,
    {
        let r = MockPte { bits: 0 };
        assert(0usize & 1 == 0 && 0usize & 2 == 0 && 0usize & !0xfffusize == 0) by (bit_vector);
        r
    }

    /// The raw bits of the entry.
    pub fn bits(&self) -> (r: usize)
        ensures
            r == self.bits_spec(),
    {
        self.bits
    }
}

impl PageTableEntry for MockPte {
    closed spec fn spec_valid(&self) -> bool {
        self.bits & MOCK_VALID_BIT != 0
    }

    closed spec fn spec_paddr(&self) -> usize {
        self.bits & !MOCK_FLAG_MASK
    }

    closed spec fn spec_huge(&self) -> bool {
        self.bits & MOCK_HUGE_BIT != 0
    }

    closed spec fn spec_addr_of(paddr: usize) -> usize {
        paddr & !MOCK_FLAG_MASK
    }

    closed spec fn spec_with_paddr(self, paddr: usize) -> Self {
        MockPte { bits: (self.bits & MOCK_FLAG_MASK) | (paddr & !MOCK_FLAG_MASK) }
    }

    closed spec fn spec_with_valid(self, valid: bool) -> Self {
        if valid {
            MockPte { bits: self.bits | MOCK_VALID_BIT }
        } else {
            MockPte { bits: self.bits & !MOCK_VALID_BIT }
        }
    }

    closed spec fn spec_with_huge(self, huge: bool) -> Self {
        if huge {
            MockPte { bits: self.bits | MOCK_HUGE_BIT }
        } else {
            MockPte { bits: self.bits & !MOCK_HUGE_BIT }
        }
    }

    fn valid(&self) -> (r: bool) {
        self.bits & MOCK_VALID_BIT != 0
    }

    fn paddr(&self) -> (r: PhysAddr) {
        PhysAddr::new(self.bits & !MOCK_FLAG_MASK)
    }

    fn set_paddr(&mut self, paddr: PhysAddr) {
        let b = self.bits;
        let p = paddr.raw();
        self.bits = (b & MOCK_FLAG_MASK) | (p & !MOCK_FLAG_MASK);
        assert((((b & 0xfff) | (p & !0xfffusize)) & !0xfffusize) == (p & !0xfffusize)
            && (((b & 0xfff) | (p & !0xfffusize)) & 1 != 0) == (b & 1 != 0)
            && (((b & 0xfff) | (p & !0xfffusize)) & 2 != 0) == (b & 2 != 0)) by (bit_vector);
    }

    fn set_valid(&mut self, valid: bool) {
        let b = self.bits;
        if valid {
            self.bits = b | MOCK_VALID_BIT;
            assert(((b | 1) & 1 != 0) && ((b | 1) & !0xfffusize) == (b & !0xfffusize)
                && (((b | 1) & 2 != 0) == (b & 2 != 0))) by (bit_vector);
        } else {
            self.bits = b & !MOCK_VALID_BIT;
            assert(!((b & !1usize) & 1 != 0) && ((b & !1usize) & !0xfffusize) == (b & !0xfffusize)
                && (((b & !1usize) & 2 != 0) == (b & 2 != 0))) by (bit_vector);
        }
    }

    fn is_huge(&self) -> (r: bool) {
        self.bits & MOCK_HUGE_BIT != 0
    }

    fn set_is_huge(&mut self, huge: bool) {
        let b = self.bits;
        if huge {
            self.bits = b | MOCK_HUGE_BIT;
            assert(((b | 2) & 2 != 0) && ((b | 2) & !0xfffusize) == (b & !0xfffusize)
                && (((b | 2) & 1 != 0) == (b & 1 != 0))) by (bit_vector);
        } else {
            self.bits = b & !MOCK_HUGE_BIT;
            assert(!((b & !2usize) & 2 != 0) && ((b & !2usize) & !0xfffusize) == (b & !0xfffusize)
                && (((b & !2usize) & 1 != 0) == (b & 1 != 0))) by (bit_vector);
        }
    }
}

} // verus!

//! A window of memory-mapped device registers.
use vstd::prelude::*;

verus! {

/// A contiguous range of device addresses: a base and a length in bytes.
///
/// The length is fixed when the region is made; the base moves only through
/// `set_base`, when the firmware remaps its address space.
pub struct MemoryRegion {
    base: u64,
    length: u64,
}

impl MemoryRegion {
    /// The first address of the window.
    pub closed spec fn spec_base(&self) -> u64 {
        self.base
    }

    /// The size of the window in bytes.
    pub closed spec fn spec_length(&self) -> u64 {
        self.length
    }

    pub fn new(base: u64, length: u64) -> (r: Self)
        ensures
            r.spec_base() == base,
            r.spec_length() == length,
    {
        MemoryRegion { base, length }
    }

    pub fn base(&self) -> (r: u64)
        ensures
            r == self.spec_base(),
    {
        self.base
    }

    pub fn length(&self) -> (r: u64)
        ensures
            r == self.spec_length(),
    {
        self.length
    }

    /// The current base and length, as the relocation path looks them up.
    pub fn as_address_range(&self) -> (r: (u64, u64))
        ensures
            r == (self.spec_base(), self.spec_length()),
    {
        (self.base, self.length)
    }

    /// Moves the window to `new_base`, keeping its length.
    pub fn set_base(&mut self, new_base: u64)
        ensures
            final(self).spec_base() == new_base,
            final(self).spec_length() == old(self).spec_length(),
    {
        self.base = new_base;
    }

    /// The address of the 32-bit register at `offset` in the window.
    pub fn register_address(&self, offset: u64) -> (r: u64)
        requires
            offset + 4 <= self.spec_length(),
            self.spec_base() + offset <= u64::MAX,
        ensures
            r == self.spec_base() + offset,
    {
        self.base + offset
    }
}

} // verus!

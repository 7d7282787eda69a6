//! Virtual addresses, pages and alignment.

use vstd::prelude::*;

verus! {

/// Size of one page in bytes.  A power of two; the low-order
/// page-offset bits of an address index into the page.
pub const PAGE_SIZE: usize = 4096;

/// Virtual page number of the page containing `addr`: the address with
/// its page-offset bits removed.
pub open spec fn vpn_floor(addr: usize) -> usize {
    addr / PAGE_SIZE
}

/// First virtual page number at or after `addr`: the page boundary
/// rounded up.
pub open spec fn vpn_ceil(addr: usize) -> usize {
    if addr % PAGE_SIZE == 0 {
        addr / PAGE_SIZE
    } else {
        (addr / PAGE_SIZE + 1) as usize
    }
}

/// Offset of `addr` within its page.
pub open spec fn page_offset_of(addr: usize) -> usize {
    addr % PAGE_SIZE
}

/// An address is page-aligned when its page offset is zero.
pub open spec fn is_page_aligned(addr: usize) -> bool {
    addr % PAGE_SIZE == 0
}

/// A virtual address: an integer partitioned into a page number and a
/// page offset.
#[derive(Clone, Copy, Debug, PartialEq, Eq, Structural)]
pub struct VirtAddr(pub usize);

impl VirtAddr {
    /// Page number of the page this address lies in.
    pub fn floor(&self) -> (r: usize)
        ensures
            r == vpn_floor(self.0),
    {
        self.0 / PAGE_SIZE
    }

    /// First page number at or after this address.
    pub fn ceil(&self) -> (r: usize)
        ensures
            r == vpn_ceil(self.0),
    {
        if self.0 % PAGE_SIZE == 0 {
            self.0 / PAGE_SIZE
        } else {
            self.0 / PAGE_SIZE + 1
        }
    }

    /// Offset of this address within its page.
    pub fn page_offset(&self) -> (r: usize)
        ensures
            r == page_offset_of(self.0),
    {
        self.0 % PAGE_SIZE
    }

    /// Whether this address sits exactly on a page boundary.
    pub fn aligned(&self) -> (r: bool)
        ensures
            r == is_page_aligned(self.0),
    {
        self.0 % PAGE_SIZE == 0
    }
}

} // verus!

//! The error taxonomy of the syscall layer.
//!
//! User mode never sees more than a signed `-1`; the richer variants keep
//! the reasons apart inside the kernel.

use vstd::prelude::*;

verus! {

/// Why a syscall refused to act.
#[derive(Clone, Copy, Debug, PartialEq, Eq, Structural)]
pub enum SyscallError {
    /// `port` has unrecognised bits or grants no access (mmap).
    InvalidPermission,
    /// `start` is not page-aligned (mmap, munmap).
    Misaligned,
    /// The requested range overlaps an existing mapping (mmap).
    RangeConflict,
    /// The requested range includes unmapped pages (munmap).
    RangeNotFullyMapped,
    /// The delta would violate the heap limits (sbrk).
    BrkOutOfBounds,
    /// A target buffer lies on an unmapped or unusable page.
    InvalidAddress,
}

impl SyscallError {
    /// The single status code any error surfaces as to user mode.
    pub fn code(&self) -> (r: isize)
        ensures
            r == -1,
    {
        -1
    }
}

} // verus!

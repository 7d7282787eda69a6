//! The program-break allocator: the upper bound of a task's heap segment.

use vstd::prelude::*;

verus! {

/// A task's heap segment: it may grow from `base` up to `top`, and `brk`
/// is its current upper bound.
#[derive(Clone, Copy, Debug)]
pub struct ProgramBreak {
    pub base: usize,
    pub brk: usize,
    pub top: usize,
}

impl ProgramBreak {
    /// The break stays within the segment, and every address of the
    /// segment is representable as a non-negative signed value.
    pub open spec fn wf(self) -> bool {
        &&& self.base <= self.brk <= self.top
        &&& self.top <= (isize::MAX as usize)
    }

    /// A heap segment from `base` to `top` with nothing allocated yet.
    pub fn new(base: usize, top: usize) -> (r: ProgramBreak)
        requires
            base <= top <= (isize::MAX as usize),
        ensures
            r.wf(),
            r.base == base,
            r.brk == base,
            r.top == top,
    {
        ProgramBreak { base, brk: base, top }
    }

    /// Grow or shrink the heap by `delta` bytes.  On success the break
    /// moves and the previous break is returned; a request that would
    /// leave the segment is refused whole.
    pub fn adjust(&mut self, delta: i32) -> (r: Option<usize>)
        requires
            old(self).wf(),
        ensures
            final(self).wf(),
            final(self).base == old(self).base,
            final(self).top == old(self).top,
            if old(self).base <= old(self).brk + delta <= old(self).top {
                r == Some(old(self).brk) && final(self).brk == old(self).brk + delta
            } else {
                r == None::<usize> && final(self).brk == old(self).brk
            },
    {
        if delta >= 0 {
            let d = delta as usize;
            if d <= self.top - self.brk {
                let prev = self.brk;
                self.brk = self.brk + d;
                Some(prev)
            } else {
                None
            }
        } else {
            let d = (-(delta as i64)) as usize;
            if d <= self.brk - self.base {
                let prev = self.brk;
                self.brk = self.brk - d;
                Some(prev)
            } else {
                None
            }
        }
    }
}

} // verus!

//! Per-task accounting: status, syscall-invocation counters and the
//! scheduling-start timestamp, plus the records delivered to user memory.

use vstd::prelude::*;

verus! {

/// Number of distinct syscall numbers the per-task counters cover.
pub const MAX_SYSCALL_NUM: usize = 500;

/// Syscall number of `exit`.
pub const SYSCALL_EXIT: usize = 93;

/// Syscall number of `yield`.
pub const SYSCALL_YIELD: usize = 124;

/// Syscall number of `get_time`.
pub const SYSCALL_GET_TIME: usize = 169;

/// Syscall number of `sbrk`.
pub const SYSCALL_SBRK: usize = 214;

/// Syscall number of `munmap`.
pub const SYSCALL_MUNMAP: usize = 215;

/// Syscall number of `mmap`.
pub const SYSCALL_MMAP: usize = 222;

/// Syscall number of `task_info`.
pub const SYSCALL_TASK_INFO: usize = 410;

/// Microseconds per second.
pub const MICROS_PER_SEC: usize = 1_000_000;

/// Microseconds per millisecond.
pub const MICROS_PER_MS: usize = 1_000;

/// Where a task stands in its life cycle.
#[derive(Clone, Copy, Debug, PartialEq, Eq, Structural)]
pub enum TaskStatus {
    Ready,
    Running,
    Exited,
}

/// A wall-clock instant as delivered to user memory: whole seconds and
/// the microseconds within the current second.
#[derive(Clone, Copy, Debug, PartialEq, Eq, Structural)]
pub struct TimeVal {
    pub sec: usize,
    pub usec: usize,
}

/// The instant `us` microseconds after the counter's origin, decomposed
/// into seconds and the remaining microseconds.
pub open spec fn time_val_of(us: usize) -> TimeVal {
    TimeVal { sec: us / MICROS_PER_SEC, usec: us % MICROS_PER_SEC }
}

/// A `TimeVal` read back as one microsecond count.
pub open spec fn time_val_total_us(tv: TimeVal) -> int {
    tv.sec * MICROS_PER_SEC + tv.usec
}

impl TimeVal {
    /// Decompose a raw microsecond count.
    pub fn from_us(us: usize) -> (r: TimeVal)
        ensures
            r == time_val_of(us),
    {
        TimeVal { sec: us / MICROS_PER_SEC, usec: us % MICROS_PER_SEC }
    }
}

/// The snapshot a task receives about itself: its status, its syscall
/// counts verbatim, and its elapsed running time in milliseconds.
/// Constructed fresh on every `task_info` call, never stored.
#[derive(Debug)]
pub struct TaskInfo {
    pub status: TaskStatus,
    pub syscall_times: Vec<u32>,
    pub time: usize,
}

/// The accounting record of one task: its status, one invocation counter
/// per syscall number, and the microsecond instant it was first scheduled.
#[derive(Debug)]
pub struct TaskControlBlock {
    pub status: TaskStatus,
    pub syscall_times: Vec<u32>,
    pub scheduling_start_us: usize,
}

impl TaskControlBlock {
    /// The counter array covers exactly the syscall-number space.
    pub open spec fn wf(self) -> bool {
        self.syscall_times@.len() == MAX_SYSCALL_NUM
    }

    /// A task that was first scheduled at `scheduling_start_us` and has
    /// issued no syscall yet.
    pub fn new(scheduling_start_us: usize) -> (r: TaskControlBlock)
        ensures
            r.wf(),
            r.status == TaskStatus::Running,
            r.scheduling_start_us == scheduling_start_us,
            r.syscall_times@.len() == MAX_SYSCALL_NUM,
            forall|i: int| 0 <= i < MAX_SYSCALL_NUM ==> r.syscall_times@[i] == 0u32,
    {
        let mut counts: Vec<u32> = Vec::new();
        let mut i: usize = 0;
        while i < MAX_SYSCALL_NUM
            invariant
                i <= MAX_SYSCALL_NUM,
                counts@.len() == i,
                forall|k: int| 0 <= k < i ==> counts@[k] == 0u32,
            decreases MAX_SYSCALL_NUM - i,
        {
            counts.push(0);
            i += 1;
        }
        TaskControlBlock { status: TaskStatus::Running, syscall_times: counts, scheduling_start_us }
    }

    /// Count one invocation of syscall `id` in the calling task's record.
    pub fn record_syscall(&mut self, id: usize)
        requires
            old(self).wf(),
            id < MAX_SYSCALL_NUM,
            old(self).syscall_times@[id as int] < u32::MAX,
        ensures
            final(self).wf(),
            final(self).syscall_times@ == old(self).syscall_times@.update(
                id as int,
                (old(self).syscall_times@[id as int] + 1) as u32,
            ),
            final(self).status == old(self).status,
            final(self).scheduling_start_us == old(self).scheduling_start_us,
    {
        let c = self.syscall_times[id];
        self.syscall_times.set(id, c + 1);
    }
}

/// An exact copy of a counter array.
pub fn copy_counts(v: &Vec<u32>) -> (r: Vec<u32>)
    ensures
        r@ == v@,
{
    let n = v.len();
    let mut r: Vec<u32> = Vec::new();
    let mut i: usize = 0;
    while i < n
        invariant
            n == v@.len(),
            i <= n,
            r@.len() == i,
            forall|k: int| 0 <= k < i ==> r@[k] == v@[k],
        decreases n - i,
    {
        r.push(v[i]);
        i += 1;
    }
    proof {
        assert(r@ =~= v@);
    }
    r
}

} // verus!

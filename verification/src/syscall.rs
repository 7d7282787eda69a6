//! The syscall handlers.
//!
//! Each handler validates its raw arguments before touching any state,
//! performs at most one mutation, and yields the signed status code the
//! trap path returns to user mode.  Where the machine operation itself
//! cannot happen here — a store through a resolved physical location, or
//! a switch of execution context — the handler returns the exact location
//! and value to store, or the request the scheduler must carry out.

use vstd::prelude::*;
use crate::addr::{VirtAddr, is_page_aligned, vpn_ceil, vpn_floor};
use crate::area::{AddressSpace, overlaps_range, page_set, range_fully_mapped, range_map};
use crate::brk::ProgramBreak;
use crate::page_table::{PageTable, resolve_user_buf, resolved_location, user_buf_resolvable};
use crate::perm::{MapPermission, perm_from_port, port_grants_no_access, port_has_reserved_bits};
use crate::task::{
    MAX_SYSCALL_NUM, MICROS_PER_MS, TaskControlBlock, TaskInfo, TaskStatus, TimeVal, copy_counts,
    time_val_of,
};

verus! {

/// Bytes of a `TimeVal` as laid out in user memory on the 64-bit target:
/// two machine words.
pub const TIME_VAL_BYTES: usize = 16;

/// Bytes of a `TaskInfo` as laid out in user memory on the 64-bit target:
/// a status word, one 32-bit counter per syscall number, and a time word.
pub const TASK_INFO_BYTES: usize = 8 + 4 * MAX_SYSCALL_NUM + 8;

/// What a handler asks of the scheduler once it is done deciding.
#[derive(Clone, Copy, Debug, PartialEq, Eq, Structural)]
pub enum SchedulerRequest {
    /// Suspend the calling task and run another; the caller resumes later.
    SuspendAndSwitch,
    /// End the calling task with this code; control never returns to it.
    ExitAndSwitch { exit_code: i32 },
}

/// `mmap` accepts a request exactly when `port` is a recognised encoding
/// granting some access, `start` is page-aligned, and no page of the
/// requested range is already mapped.
pub open spec fn mmap_accepts(
    m: Map<usize, MapPermission>,
    start: usize,
    len: usize,
    port: usize,
) -> bool {
    &&& !port_has_reserved_bits(port)
    &&& !port_grants_no_access(port)
    &&& is_page_aligned(start)
    &&& !overlaps_range(m, vpn_floor(start), vpn_ceil((start + len) as usize))
}

/// The pages an accepted `mmap` adds: the page range covering
/// `[start, start + len)`, all carrying the decoded permissions.
pub open spec fn mmap_new_pages(start: usize, len: usize, port: usize) -> Map<
    usize,
    MapPermission,
> {
    range_map(vpn_floor(start), vpn_ceil((start + len) as usize), perm_from_port(port))
}

/// `munmap` accepts a request exactly when `start` is page-aligned and
/// every page of the covering range is currently mapped.
pub open spec fn munmap_accepts(m: Map<usize, MapPermission>, start: usize, len: usize) -> bool {
    &&& is_page_aligned(start)
    &&& range_fully_mapped(m, vpn_floor(start), vpn_ceil((start + len) as usize))
}

/// The task exits with `exit_code`: hand control to the scheduler's
/// exit-and-switch primitive.  Control never returns to the caller.
pub fn sys_exit(exit_code: i32) -> (r: SchedulerRequest)
    ensures
        r == (SchedulerRequest::ExitAndSwitch { exit_code }),
{
    SchedulerRequest::ExitAndSwitch { exit_code }
}

/// The task gives up the processor: hand control to the scheduler's
/// suspend-and-switch primitive, and deliver `0` once the task runs again.
pub fn sys_yield() -> (r: (SchedulerRequest, isize))
    ensures
        r == (SchedulerRequest::SuspendAndSwitch, 0isize),
{
    (SchedulerRequest::SuspendAndSwitch, 0)
}

/// Write the current wall-clock time, decomposed into seconds and
/// microseconds, into the `TimeVal`-sized user buffer at `ts`.
///
/// The caller passes the monotonic microsecond counter it read as
/// `now_us` and performs the returned store; the handler only decides.
/// An unusable buffer — unmapped page, or a value that would straddle a
/// page boundary — fails with `-1` and no store.
pub fn sys_get_time(pt: &PageTable, ts: usize, _tz: usize, now_us: usize) -> (r: (
    isize,
    Option<(usize, TimeVal)>,
))
    requires
        pt.wf(),
    ensures
        user_buf_resolvable(pt@, ts, TIME_VAL_BYTES) ==> r == (
            0isize,
            Some((resolved_location(pt@, ts), time_val_of(now_us))),
        ),
        !user_buf_resolvable(pt@, ts, TIME_VAL_BYTES) ==> r == (
            -1isize,
            None::<(usize, TimeVal)>,
        ),
{
    match resolve_user_buf(pt, ts, TIME_VAL_BYTES) {
        Ok(pa) => (0, Some((pa, TimeVal::from_us(now_us)))),
        Err(e) => (e.code(), None),
    }
}

/// Elapsed running time in milliseconds between the instant a task was
/// first scheduled and now.
pub open spec fn elapsed_ms(start_us: usize, now_us: usize) -> int {
    (now_us - start_us) / (MICROS_PER_MS as int)
}

/// Write a fresh snapshot of the calling task — status `Running`, its
/// syscall counts verbatim, and its elapsed time in milliseconds — into
/// the `TaskInfo`-sized user buffer at `ti`.
///
/// As with `sys_get_time`, the caller reads the microsecond counter and
/// performs the returned store.  An unusable buffer fails with `-1`.
pub fn sys_task_info(pt: &PageTable, task: &TaskControlBlock, ti: usize, now_us: usize) -> (r: (
    isize,
    Option<(usize, TaskInfo)>,
))
    requires
        pt.wf(),
        task.wf(),
        task.scheduling_start_us <= now_us,
    ensures
        user_buf_resolvable(pt@, ti, TASK_INFO_BYTES) ==> ({
            &&& r.0 == 0
            &&& r.1 matches Some(w) && w.0 == resolved_location(pt@, ti) && w.1.status
                == TaskStatus::Running && w.1.syscall_times@ == task.syscall_times@ && w.1.time
                == elapsed_ms(task.scheduling_start_us, now_us)
        }),
        !user_buf_resolvable(pt@, ti, TASK_INFO_BYTES) ==> r.0 == -1 && r.1 is None,
{
    match resolve_user_buf(pt, ti, TASK_INFO_BYTES) {
        Ok(pa) => {
            let info = TaskInfo {
                status: TaskStatus::Running,
                syscall_times: copy_counts(&task.syscall_times),
                time: (now_us - task.scheduling_start_us) / MICROS_PER_MS,
            };
            (0, Some((pa, info)))
        },
        Err(e) => (e.code(), None),
    }
}

/// Map the page range covering `[start, start + len)` with the
/// permissions `port` encodes, user access forced on.
///
/// Validation, in order, each failure returning `-1` with nothing
/// changed: `port` must carry no unrecognised bits and grant some access,
/// `start` must be page-aligned, and the range must not touch an existing
/// mapping.  A `len` of zero passes trivially and maps nothing.
pub fn sys_mmap(space: &mut AddressSpace, start: usize, len: usize, port: usize) -> (r: isize)
    requires
        old(space).wf(),
        start + len <= usize::MAX,
    ensures
        final(space).wf(),
        r == (if mmap_accepts(old(space)@, start, len, port) {
            0isize
        } else {
            -1isize
        }),
        r == 0 ==> final(space)@ == old(space)@.union_prefer_right(
            mmap_new_pages(start, len, port),
        ),
        r == -1 ==> final(space)@ == old(space)@,
{
    if port & 0xF8 != 0 || port & 0x07 == 0 {
        return -1;
    }
    let start_va = VirtAddr(start);
    let end_va = VirtAddr(start + len);
    if !start_va.aligned() {
        return -1;
    }
    let svpn = start_va.floor();
    let evpn = end_va.ceil();
    if space.range_overlaps(svpn, evpn) {
        return -1;
    }
    let permission = MapPermission::from_port(port);
    if svpn < evpn {
        space.insert(svpn, evpn, permission);
    } else {
        proof {
            assert(space@.union_prefer_right(mmap_new_pages(start, len, port)) =~= space@);
        }
    }
    0
}

/// Unmap every page of the range covering `[start, start + len)`.
///
/// `start` must be page-aligned and every page of the range must be
/// mapped; otherwise the call fails with `-1` and the address space is
/// left unchanged.  The removal is all-or-nothing.
pub fn sys_munmap(space: &mut AddressSpace, start: usize, len: usize) -> (r: isize)
    requires
        old(space).wf(),
        start + len <= usize::MAX,
    ensures
        final(space).wf(),
        r == (if munmap_accepts(old(space)@, start, len) {
            0isize
        } else {
            -1isize
        }),
        r == 0 ==> final(space)@ == old(space)@.remove_keys(
            page_set(vpn_floor(start), vpn_ceil((start + len) as usize)),
        ),
        r == -1 ==> final(space)@ == old(space)@,
{
    let start_va = VirtAddr(start);
    let end_va = VirtAddr(start + len);
    if !start_va.aligned() {
        return -1;
    }
    let svpn = start_va.floor();
    let evpn = end_va.ceil();
    proof {
        vstd::arithmetic::div_mod::lemma_div_is_ordered(
            start as int,
            (start + len) as int,
            crate::addr::PAGE_SIZE as int,
        );
    }
    if space.remove_range(svpn, evpn) {
        0
    } else {
        -1
    }
}

/// Grow or shrink the task's heap by `size` bytes.  Returns the break
/// address prior to adjustment, or `-1` when the adjuster refuses a
/// request that would leave the heap segment.
pub fn sys_sbrk(heap: &mut ProgramBreak, size: i32) -> (r: isize)
    requires
        old(heap).wf(),
    ensures
        final(heap).wf(),
        final(heap).base == old(heap).base,
        final(heap).top == old(heap).top,
        if old(heap).base <= old(heap).brk + size <= old(heap).top {
            r == old(heap).brk && final(heap).brk == old(heap).brk + size
        } else {
            r == -1 && final(heap).brk == old(heap).brk
        },
{
    match heap.adjust(size) {
        Some(old_brk) => old_brk as isize,
        None => -1,
    }
}

} // verus!

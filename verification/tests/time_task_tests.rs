use syscall_layer::addr::{PAGE_SIZE, VirtAddr};
use syscall_layer::errors::SyscallError;
use syscall_layer::page_table::{PageTable, resolve_user_buf};
use syscall_layer::syscall::{
    TASK_INFO_BYTES, TIME_VAL_BYTES, sys_get_time, sys_task_info, sys_yield,
};
use syscall_layer::task::{
    MAX_SYSCALL_NUM, SYSCALL_GET_TIME, SYSCALL_MMAP, SYSCALL_YIELD, TaskControlBlock, TaskStatus,
    TimeVal,
};

fn table_with(vpn: usize, ppn: usize) -> PageTable {
    let mut pt = PageTable::new();
    pt.map_page(vpn, ppn);
    pt
}

#[test]
fn get_time_decomposes_the_counter_exactly() {
    let pt = table_with(5, 7);
    let (code, write) = sys_get_time(&pt, 5 * PAGE_SIZE, 0, 987_654_321);
    assert_eq!(code, 0);
    let (pa, tv) = write.expect("a mapped, in-page buffer must resolve");
    assert_eq!(pa, 7 * PAGE_SIZE);
    assert_eq!(tv, TimeVal { sec: 987, usec: 654_321 });
}

#[test]
fn get_time_resolves_through_the_page_offset() {
    let pt = table_with(5, 7);
    let (code, write) = sys_get_time(&pt, 5 * PAGE_SIZE + 0x10, 0, 0);
    assert_eq!(code, 0);
    let (pa, tv) = write.expect("a mapped, in-page buffer must resolve");
    assert_eq!(pa, 7 * PAGE_SIZE + 0x10);
    assert_eq!(tv, TimeVal { sec: 0, usec: 0 });
}

#[test]
fn get_time_twice_is_monotonic_as_microseconds() {
    let pt = table_with(5, 7);
    let (_, first) = sys_get_time(&pt, 5 * PAGE_SIZE, 0, 1_500_000);
    let (_, second) = sys_get_time(&pt, 5 * PAGE_SIZE, 0, 2_700_001);
    let tv1 = first.expect("first call resolves").1;
    let tv2 = second.expect("second call resolves").1;
    let us1 = tv1.sec * 1_000_000 + tv1.usec;
    let us2 = tv2.sec * 1_000_000 + tv2.usec;
    assert!(us1 <= us2);
    assert_eq!(us1, 1_500_000);
    assert_eq!(us2, 2_700_001);
}

#[test]
fn get_time_fails_on_an_unmapped_page() {
    let pt = table_with(5, 7);
    let (code, write) = sys_get_time(&pt, 6 * PAGE_SIZE, 0, 1);
    assert_eq!(code, -1);
    assert!(write.is_none());
}

#[test]
fn get_time_refuses_a_buffer_straddling_a_page_boundary() {
    let mut pt = PageTable::new();
    pt.map_page(5, 7);
    pt.map_page(6, 8);
    // both pages are mapped, yet the value would cross from one physical
    // page to another, so resolution through a single page is refused
    let ts = 6 * PAGE_SIZE - (TIME_VAL_BYTES / 2);
    let (code, write) = sys_get_time(&pt, ts, 0, 1);
    assert_eq!(code, -1);
    assert!(write.is_none());
}

#[test]
fn resolver_reports_invalid_address() {
    let pt = PageTable::new();
    assert_eq!(
        resolve_user_buf(&pt, 0x5000, 8),
        Err(SyscallError::InvalidAddress)
    );
    assert_eq!(SyscallError::InvalidAddress.code(), -1);
}

#[test]
fn resolver_computes_base_plus_offset() {
    let pt = table_with(3, 11);
    assert_eq!(resolve_user_buf(&pt, 3 * PAGE_SIZE + 0x123, 8), Ok(11 * PAGE_SIZE + 0x123));
}

#[test]
fn virt_addr_partitions_into_page_and_offset() {
    let a = VirtAddr(0x1234);
    assert_eq!(a.floor(), 1);
    assert_eq!(a.ceil(), 2);
    assert_eq!(a.page_offset(), 0x234);
    assert!(!a.aligned());
    assert!(VirtAddr(0x2000).aligned());
    assert_eq!(VirtAddr(0x2000).ceil(), 2);
}

#[test]
fn task_info_reports_yields_counted_so_far() {
    let mut task = TaskControlBlock::new(1_000);
    let n = 3;
    for _ in 0..n {
        // the dispatcher counts the syscall, then the handler runs
        task.record_syscall(SYSCALL_YIELD);
        let _ = sys_yield();
    }
    let pt = table_with(9, 4);
    let (code, write) = sys_task_info(&pt, &task, 9 * PAGE_SIZE, 1_234_567);
    assert_eq!(code, 0);
    let (pa, info) = write.expect("a mapped, in-page buffer must resolve");
    assert_eq!(pa, 4 * PAGE_SIZE);
    assert_eq!(info.status, TaskStatus::Running);
    assert_eq!(info.syscall_times.len(), MAX_SYSCALL_NUM);
    assert_eq!(info.syscall_times[SYSCALL_YIELD], n);
    assert_eq!(info.time, (1_234_567 - 1_000) / 1_000);
}

#[test]
fn task_info_counts_are_verbatim_and_other_entries_stay_zero() {
    let mut task = TaskControlBlock::new(0);
    task.record_syscall(SYSCALL_YIELD);
    task.record_syscall(SYSCALL_MMAP);
    task.record_syscall(SYSCALL_MMAP);
    task.record_syscall(SYSCALL_GET_TIME);
    let pt = table_with(9, 4);
    let (_, write) = sys_task_info(&pt, &task, 9 * PAGE_SIZE, 5_000);
    let info = write.expect("buffer resolves").1;
    for (id, count) in info.syscall_times.iter().enumerate() {
        let expected = match id {
            _ if id == SYSCALL_YIELD => 1,
            _ if id == SYSCALL_MMAP => 2,
            _ if id == SYSCALL_GET_TIME => 1,
            _ => 0,
        };
        assert_eq!(*count, expected);
    }
}

#[test]
fn task_info_fails_on_an_unmapped_buffer() {
    let task = TaskControlBlock::new(0);
    let pt = PageTable::new();
    let (code, write) = sys_task_info(&pt, &task, 0x9000, 5_000);
    assert_eq!(code, -1);
    assert!(write.is_none());
}

#[test]
fn task_info_buffer_never_fits_at_the_end_of_a_page() {
    // a TaskInfo is wider than the tail of any page it starts inside
    assert!(TASK_INFO_BYTES > 0);
    let pt = table_with(9, 4);
    let task = TaskControlBlock::new(0);
    let ti = 9 * PAGE_SIZE + PAGE_SIZE - 8;
    let (code, write) = sys_task_info(&pt, &task, ti, 5_000);
    assert_eq!(code, -1);
    assert!(write.is_none());
}

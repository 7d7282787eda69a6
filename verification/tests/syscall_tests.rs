use syscall_layer::area::AddressSpace;
use syscall_layer::brk::ProgramBreak;
use syscall_layer::perm::MapPermission;
use syscall_layer::syscall::{
    SchedulerRequest, sys_exit, sys_mmap, sys_munmap, sys_sbrk, sys_yield,
};

#[test]
fn mmap_then_munmap_identical_range_round_trips() {
    let mut space = AddressSpace::new();
    assert_eq!(sys_mmap(&mut space, 0x1000, 0x2000, 0x3), 0);
    assert!(space.is_mapped(1));
    assert!(space.is_mapped(2));
    assert_eq!(sys_munmap(&mut space, 0x1000, 0x2000), 0);
    assert!(!space.is_mapped(1));
    assert!(!space.is_mapped(2));
    // the address space is as before the pair: the same map succeeds again
    assert_eq!(sys_mmap(&mut space, 0x1000, 0x2000, 0x3), 0);
}

#[test]
fn mmap_sets_decoded_permissions_with_user_access() {
    let mut space = AddressSpace::new();
    assert_eq!(sys_mmap(&mut space, 0x1000, 0x1000, 0x3), 0);
    let perm = space.perm_of(1).expect("page must be mapped");
    assert_eq!(
        perm,
        MapPermission {
            readable: true,
            writable: true,
            executable: false,
            user_accessible: true,
        }
    );
    assert_eq!(space.perm_of(2), None);
}

#[test]
fn mmap_rejects_reserved_port_bits() {
    let mut space = AddressSpace::new();
    assert_eq!(sys_mmap(&mut space, 0x1000, 0x1000, 0x9), -1);
    assert_eq!(sys_mmap(&mut space, 0x1000, 0x1000, 0xF8), -1);
    assert!(!space.is_mapped(1));
}

#[test]
fn mmap_rejects_port_without_access_bits() {
    let mut space = AddressSpace::new();
    assert_eq!(sys_mmap(&mut space, 0x1000, 0x1000, 0x0), -1);
    assert_eq!(sys_mmap(&mut space, 0x1000, 0x1000, 0x100), -1);
    assert!(!space.is_mapped(1));
}

#[test]
fn mmap_rejects_unaligned_start_for_any_len_and_port() {
    let mut space = AddressSpace::new();
    assert_eq!(sys_mmap(&mut space, 0x1001, 0x1000, 0x1), -1);
    assert_eq!(sys_mmap(&mut space, 0x1001, 0x0, 0x7), -1);
    assert_eq!(sys_mmap(&mut space, 0x1001, 0x123, 0x2), -1);
    assert!(!space.is_mapped(1));
}

#[test]
fn mmap_rejects_overlapping_second_request() {
    let mut space = AddressSpace::new();
    assert_eq!(sys_mmap(&mut space, 0x1000, 0x2000, 0x3), 0);
    assert_eq!(sys_mmap(&mut space, 0x2000, 0x1000, 0x3), -1);
    // the first mapping is untouched
    assert!(space.is_mapped(1));
    assert!(space.is_mapped(2));
    assert!(!space.is_mapped(3));
}

#[test]
fn mmap_len_zero_succeeds_and_maps_nothing() {
    let mut space = AddressSpace::new();
    assert_eq!(sys_mmap(&mut space, 0x1000, 0, 0x1), 0);
    assert!(!space.is_mapped(1));
}

#[test]
fn mmap_rounds_len_up_to_whole_pages() {
    let mut space = AddressSpace::new();
    assert_eq!(sys_mmap(&mut space, 0x1000, 0x1001, 0x1), 0);
    assert!(space.is_mapped(1));
    assert!(space.is_mapped(2));
    assert!(!space.is_mapped(3));
}

#[test]
fn munmap_partially_mapped_range_fails_and_changes_nothing() {
    let mut space = AddressSpace::new();
    assert_eq!(sys_mmap(&mut space, 0x1000, 0x1000, 0x3), 0);
    assert_eq!(sys_munmap(&mut space, 0x1000, 0x2000), -1);
    // [0x1000, 0x2000) is still mapped
    assert!(space.is_mapped(1));
}

#[test]
fn munmap_rejects_unaligned_start() {
    let mut space = AddressSpace::new();
    assert_eq!(sys_mmap(&mut space, 0x1000, 0x1000, 0x3), 0);
    assert_eq!(sys_munmap(&mut space, 0x1001, 0x0800), -1);
    assert!(space.is_mapped(1));
}

#[test]
fn munmap_can_split_an_area_in_the_middle() {
    let mut space = AddressSpace::new();
    assert_eq!(sys_mmap(&mut space, 0x1000, 0x3000, 0x3), 0);
    assert_eq!(sys_munmap(&mut space, 0x2000, 0x1000), 0);
    assert!(space.is_mapped(1));
    assert!(!space.is_mapped(2));
    assert!(space.is_mapped(3));
}

#[test]
fn munmap_empty_range_succeeds() {
    let mut space = AddressSpace::new();
    assert_eq!(sys_munmap(&mut space, 0x1000, 0), 0);
}

#[test]
fn sbrk_grows_and_returns_previous_break() {
    let mut heap = ProgramBreak::new(0x10000, 0x20000);
    assert_eq!(sys_sbrk(&mut heap, 0x100), 0x10000);
    assert_eq!(heap.brk, 0x10100);
    assert_eq!(sys_sbrk(&mut heap, 0x100), 0x10100);
    assert_eq!(heap.brk, 0x10200);
}

#[test]
fn sbrk_shrinks_within_the_segment() {
    let mut heap = ProgramBreak::new(0x10000, 0x20000);
    assert_eq!(sys_sbrk(&mut heap, 0x200), 0x10000);
    assert_eq!(sys_sbrk(&mut heap, -0x80), 0x10200);
    assert_eq!(heap.brk, 0x10180);
}

#[test]
fn sbrk_rejects_underflow_below_the_base() {
    let mut heap = ProgramBreak::new(0x10000, 0x20000);
    assert_eq!(sys_sbrk(&mut heap, -1), -1);
    assert_eq!(heap.brk, 0x10000);
}

#[test]
fn sbrk_rejects_growth_past_the_top() {
    let mut heap = ProgramBreak::new(0x10000, 0x11000);
    assert_eq!(sys_sbrk(&mut heap, 0x1001), -1);
    assert_eq!(heap.brk, 0x10000);
}

#[test]
fn exit_requests_exit_and_switch_with_the_code() {
    assert_eq!(
        sys_exit(7),
        SchedulerRequest::ExitAndSwitch { exit_code: 7 }
    );
    assert_eq!(
        sys_exit(-3),
        SchedulerRequest::ExitAndSwitch { exit_code: -3 }
    );
}

#[test]
fn yield_requests_suspend_and_returns_zero() {
    assert_eq!(sys_yield(), (SchedulerRequest::SuspendAndSwitch, 0));
}

//! Laws of the syscall layer that relate several operations, stated over
//! the same models the handlers' contracts use and proved once for all
//! inputs.

use vstd::prelude::*;
use crate::addr::{vpn_ceil, vpn_floor};
use crate::area::{overlaps_range, page_set};
use crate::perm::MapPermission;
use crate::syscall::{mmap_accepts, mmap_new_pages, munmap_accepts};
use crate::task::{
    MAX_SYSCALL_NUM, MICROS_PER_SEC, SYSCALL_YIELD, time_val_of, time_val_total_us,
};

verus! {

/// A `TimeVal` read back as a single microsecond count is exactly the
/// counter value it was decomposed from.
pub proof fn lemma_time_val_round_trip(us: usize)
    ensures
        time_val_total_us(time_val_of(us)) == us,
{
    vstd::arithmetic::div_mod::lemma_fundamental_div_mod(us as int, MICROS_PER_SEC as int);
}

/// Law: two successive clock readings give `TimeVal`s that are
/// non-decreasing when read back as microsecond counts, because the
/// underlying counter is monotonic and the decomposition is lossless.
pub proof fn lemma_get_time_monotonic(now1: usize, now2: usize)
    requires
        now1 <= now2,
    ensures
        time_val_total_us(time_val_of(now1)) <= time_val_total_us(time_val_of(now2)),
{
    lemma_time_val_round_trip(now1);
    lemma_time_val_round_trip(now2);
}

/// Law: an accepted `mmap` followed by `munmap` of the identical range
/// succeeds both times and leaves the mapped-page set of the address
/// space exactly as it stood before the `mmap`.
///
/// `m` is the mapped-page set before the pair of calls; the `mmap`
/// handler's contract makes the set after the first call
/// `m.union_prefer_right(mmap_new_pages(start, len, port))`, and the
/// `munmap` handler's contract then removes the covering page range.
pub proof fn lemma_mmap_munmap_round_trip(
    m: Map<usize, MapPermission>,
    start: usize,
    len: usize,
    port: usize,
)
    requires
        start + len <= usize::MAX,
        mmap_accepts(m, start, len, port),
    ensures
        munmap_accepts(m.union_prefer_right(mmap_new_pages(start, len, port)), start, len),
        m.union_prefer_right(mmap_new_pages(start, len, port)).remove_keys(
            page_set(vpn_floor(start), vpn_ceil((start + len) as usize)),
        ) == m,
{
    let s = vpn_floor(start);
    let e = vpn_ceil((start + len) as usize);
    let m1 = m.union_prefer_right(mmap_new_pages(start, len, port));
    assert forall|p: usize| s <= p < e implies #[trigger] m1.dom().contains(p) by {
        assert(mmap_new_pages(start, len, port).dom().contains(p));
    }
    assert forall|p: usize| #[trigger] m.dom().contains(p) implies !(s <= p < e) by {
        if s <= p < e {
            assert(overlaps_range(m, s, e));
        }
    }
    assert(m1.remove_keys(page_set(s, e)) =~= m);
}

/// The syscall counters after `n` further yields: each yield counts one
/// invocation of the yield syscall, exactly as `record_syscall` does.
pub open spec fn counts_after_yields(c: Seq<u32>, n: nat) -> Seq<u32>
    decreases n,
{
    if n == 0 {
        c
    } else {
        let prev = counts_after_yields(c, (n - 1) as nat);
        prev.update(SYSCALL_YIELD as int, (prev[SYSCALL_YIELD as int] + 1) as u32)
    }
}

/// Law: after a task issues `n` yields, its accounting shows the yield
/// syscall's count exactly `n` higher, and every other count unchanged —
/// so the snapshot `task_info` reports verbatim shows exactly `n`.
pub proof fn lemma_yield_count_after_yields(c: Seq<u32>, n: nat)
    requires
        c.len() == MAX_SYSCALL_NUM,
        c[SYSCALL_YIELD as int] + n <= u32::MAX,
    ensures
        counts_after_yields(c, n).len() == MAX_SYSCALL_NUM,
        counts_after_yields(c, n)[SYSCALL_YIELD as int] == c[SYSCALL_YIELD as int] + n,
        forall|i: int|
            0 <= i < MAX_SYSCALL_NUM && i != SYSCALL_YIELD ==> counts_after_yields(c, n)[i]
                == c[i],
    decreases n,
{
    if n > 0 {
        lemma_yield_count_after_yields(c, (n - 1) as nat);
    }
}

} // verus!

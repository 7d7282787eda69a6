//! Virtual-to-physical page translation, and resolution of raw user
//! addresses into kernel-side locations.

use vstd::prelude::*;
use crate::addr::{PAGE_SIZE, VirtAddr, page_offset_of, vpn_floor};
use crate::errors::SyscallError;

verus! {

/// One translation entry: virtual page `vpn` owned by physical page `ppn`.
#[derive(Clone, Copy, Debug)]
pub struct Translation {
    pub vpn: usize,
    pub ppn: usize,
}

/// The partial map described by a sequence of entries, later entries
/// preferred (immaterial once the virtual pages are distinct).
pub open spec fn translations_of(s: Seq<Translation>) -> Map<usize, usize>
    decreases s.len(),
{
    if s.len() == 0 {
        Map::empty()
    } else {
        translations_of(s.drop_last()).insert(s.last().vpn, s.last().ppn)
    }
}

/// Model of the address translator: the partial map from virtual page
/// numbers to the owning physical page numbers.
pub struct PageTable {
    entries: Vec<Translation>,
}

/// A virtual page is translated exactly when some entry names it.
pub proof fn lemma_translations_dom(s: Seq<Translation>, vpn: usize)
    ensures
        translations_of(s).dom().contains(vpn) <==> exists|i: int|
            0 <= i < s.len() && (#[trigger] s[i]).vpn == vpn,
    decreases s.len(),
{
    if s.len() > 0 {
        lemma_translations_dom(s.drop_last(), vpn);
        if translations_of(s).dom().contains(vpn) {
            if s.last().vpn == vpn {
                assert(s[s.len() - 1].vpn == vpn);
            } else {
                let i = choose|i: int|
                    0 <= i < s.drop_last().len() && (#[trigger] s.drop_last()[i]).vpn == vpn;
                assert(s[i].vpn == vpn);
            }
        }
        if exists|i: int| 0 <= i < s.len() && (#[trigger] s[i]).vpn == vpn {
            let i = choose|i: int| 0 <= i < s.len() && (#[trigger] s[i]).vpn == vpn;
            if i < s.len() - 1 {
                assert(s.drop_last()[i].vpn == vpn);
            }
            assert(translations_of(s).dom().contains(vpn));
        }
    }
}

/// With distinct virtual pages, entry `i` gives the translated value.
pub proof fn lemma_translations_value(s: Seq<Translation>, i: int)
    requires
        forall|k1: int, k2: int|
            0 <= k1 < k2 < s.len() ==> (#[trigger] s[k1]).vpn != (#[trigger] s[k2]).vpn,
        0 <= i < s.len(),
    ensures
        translations_of(s).dom().contains(s[i].vpn),
        translations_of(s)[s[i].vpn] == s[i].ppn,
    decreases s.len(),
{
    if i == s.len() - 1 {
        assert(translations_of(s)[s.last().vpn] == s.last().ppn);
    } else {
        assert(s[i].vpn != s[s.len() - 1].vpn);
        assert(forall|k: int| 0 <= k < s.drop_last().len() ==> #[trigger] s.drop_last()[k] == s[k]);
        lemma_translations_value(s.drop_last(), i);
    }
}

impl View for PageTable {
    type V = Map<usize, usize>;

    /// Model: the partial map from virtual to physical page numbers.
    closed spec fn view(&self) -> Map<usize, usize> {
        translations_of(self.entries@)
    }
}

impl PageTable {
    /// Each virtual page is named once, and every physical page number is
    /// small enough that any address inside it fits the address width.
    pub closed spec fn wf(self) -> bool {
        &&& forall|k1: int, k2: int|
            0 <= k1 < k2 < self.entries@.len() ==> (#[trigger] self.entries@[k1]).vpn != (
            #[trigger] self.entries@[k2]).vpn
        &&& forall|k: int|
            0 <= k < self.entries@.len() ==> (#[trigger] self.entries@[k]).ppn < usize::MAX
                / PAGE_SIZE
    }

    /// A page table with no translations.
    pub fn new() -> (r: PageTable)
        ensures
            r.wf(),
            r@ == Map::<usize, usize>::empty(),
    {
        PageTable { entries: Vec::new() }
    }

    /// Record that virtual page `vpn` is owned by physical page `ppn`.
    pub fn map_page(&mut self, vpn: usize, ppn: usize)
        requires
            old(self).wf(),
            !old(self)@.dom().contains(vpn),
            ppn < usize::MAX / PAGE_SIZE,
        ensures
            final(self).wf(),
            final(self)@ == old(self)@.insert(vpn, ppn),
    {
        let ghost s0 = self.entries@;
        self.entries.push(Translation { vpn, ppn });
        proof {
            assert(self.entries@.drop_last() =~= s0);
            assert forall|k1: int, k2: int|
                0 <= k1 < k2 < self.entries@.len() implies (#[trigger] self.entries@[k1]).vpn != (
            #[trigger] self.entries@[k2]).vpn by {
                if k2 == self.entries@.len() - 1 {
                    lemma_translations_dom(s0, s0[k1].vpn);
                }
            }
        }
    }

    /// The physical page owning virtual page `vpn`, or `None` when the
    /// page is untranslated.
    pub fn translate(&self, vpn: usize) -> (r: Option<usize>)
        requires
            self.wf(),
        ensures
            r == (if self@.dom().contains(vpn) {
                Some(self@[vpn])
            } else {
                None::<usize>
            }),
            r matches Some(ppn) ==> ppn < usize::MAX / PAGE_SIZE,
    {
        let n = self.entries.len();
        let mut i: usize = 0;
        while i < n
            invariant
                self.wf(),
                n == self.entries@.len(),
                forall|k: int| 0 <= k < i ==> (#[trigger] self.entries@[k]).vpn != vpn,
            decreases n - i,
        {
            let e = self.entries[i];
            if e.vpn == vpn {
                proof {
                    lemma_translations_value(self.entries@, i as int);
                }
                return Some(e.ppn);
            }
            i += 1;
        }
        proof {
            lemma_translations_dom(self.entries@, vpn);
        }
        None
    }
}

/// A user buffer at `va` of `size` bytes can be resolved: its page is
/// translated and the buffer does not run past the end of that page.
/// Resolution through a single page is correct only for such buffers; a
/// buffer straddling a page boundary would resolve to the wrong physical
/// page for its tail bytes, so it is refused outright.
pub open spec fn user_buf_resolvable(m: Map<usize, usize>, va: usize, size: usize) -> bool {
    &&& page_offset_of(va) + size <= PAGE_SIZE
    &&& m.dom().contains(vpn_floor(va))
}

/// The kernel-side location a resolvable buffer resolves to: the base of
/// the owning physical page plus the page offset.
pub open spec fn resolved_location(m: Map<usize, usize>, va: usize) -> usize {
    (m[vpn_floor(va)] * PAGE_SIZE + page_offset_of(va)) as usize
}

/// Resolve the raw user address `va`, designating a value of `size`
/// bytes, to a kernel-side location usable once for that single access.
/// Fails with `InvalidAddress` when the page is untranslated or the value
/// would straddle a page boundary.
pub fn resolve_user_buf(pt: &PageTable, va: usize, size: usize) -> (r: Result<
    usize,
    SyscallError,
>)
    requires
        pt.wf(),
    ensures
        user_buf_resolvable(pt@, va, size) ==> r == Ok::<usize, SyscallError>(
            resolved_location(pt@, va),
        ),
        !user_buf_resolvable(pt@, va, size) ==> r == Err::<usize, SyscallError>(
            SyscallError::InvalidAddress,
        ),
{
    let a = VirtAddr(va);
    let offset = a.page_offset();
    if size > PAGE_SIZE || offset > PAGE_SIZE - size {
        return Err(SyscallError::InvalidAddress);
    }
    match pt.translate(a.floor()) {
        Some(ppn) => Ok(ppn * PAGE_SIZE + offset),
        None => Err(SyscallError::InvalidAddress),
    }
}

} // verus!

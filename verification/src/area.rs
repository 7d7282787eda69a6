//! Per-address-space store of mapped memory regions.
//!
//! A region is a half-open range of virtual page numbers carrying one
//! permission set; within one address space no two regions overlap.  The
//! store is modelled as the map from each mapped page to its permissions.

use vstd::prelude::*;
use crate::perm::MapPermission;

verus! {

/// A contiguous half-open range of virtual pages `[start_vpn, end_vpn)`
/// sharing one permission set.
#[derive(Clone, Copy, Debug)]
pub struct MemoryArea {
    pub start_vpn: usize,
    pub end_vpn: usize,
    pub perm: MapPermission,
}

/// Page `p` lies inside area `a`.
pub open spec fn contains_page(a: MemoryArea, p: usize) -> bool {
    a.start_vpn <= p < a.end_vpn
}

/// The page ranges of `a` and `[start, end)` share at least one page.
pub open spec fn ranges_intersect(a: MemoryArea, start: usize, end: usize) -> bool {
    (if a.start_vpn > start {
        a.start_vpn
    } else {
        start
    }) < (if a.end_vpn < end {
        a.end_vpn
    } else {
        end
    })
}

/// The set of pages in `[start, end)`.
pub open spec fn page_set(start: usize, end: usize) -> Set<usize> {
    Set::new(|p: usize| start <= p < end)
}

/// The map sending every page of `[start, end)` to `perm`.
pub open spec fn range_map(start: usize, end: usize, perm: MapPermission) -> Map<
    usize,
    MapPermission,
> {
    Map::new(|p: usize| start <= p < end, |p: usize| perm)
}

impl MemoryArea {
    /// The pages of this area, each carrying the area's permission set.
    pub open spec fn pages(self) -> Map<usize, MapPermission> {
        range_map(self.start_vpn, self.end_vpn, self.perm)
    }

    /// An area is well formed when it holds at least one page.
    pub open spec fn wf(self) -> bool {
        self.start_vpn < self.end_vpn
    }

    /// Two areas are disjoint when their page ranges share no page.
    pub open spec fn disjoint(self, other: MemoryArea) -> bool {
        self.end_vpn <= other.start_vpn || other.end_vpn <= self.start_vpn
    }
}

/// `inner`'s page range lies within `outer`'s.
pub open spec fn sub_area(inner: MemoryArea, outer: MemoryArea) -> bool {
    outer.start_vpn <= inner.start_vpn && inner.end_vpn <= outer.end_vpn
}

/// All mapped pages of a sequence of areas, later areas preferred
/// (immaterial once the areas are pairwise disjoint).
pub open spec fn pages_of(s: Seq<MemoryArea>) -> Map<usize, MapPermission>
    decreases s.len(),
{
    if s.len() == 0 {
        Map::empty()
    } else {
        pages_of(s.drop_last()).union_prefer_right(s.last().pages())
    }
}

/// Every area is well formed and no two areas overlap.
pub open spec fn areas_wf(s: Seq<MemoryArea>) -> bool {
    &&& forall|i: int| 0 <= i < s.len() ==> (#[trigger] s[i]).wf()
    &&& forall|i: int, j: int|
        0 <= i < j < s.len() ==> (#[trigger] s[i]).disjoint(#[trigger] s[j])
}

/// Some page of `[start, end)` is in the domain of `m`.
pub open spec fn overlaps_range(m: Map<usize, MapPermission>, start: usize, end: usize) -> bool {
    exists|p: usize| start <= p < end && #[trigger] m.dom().contains(p)
}

/// Every page of `[start, end)` is in the domain of `m`.
pub open spec fn range_fully_mapped(
    m: Map<usize, MapPermission>,
    start: usize,
    end: usize,
) -> bool {
    forall|p: usize| start <= p < end ==> #[trigger] m.dom().contains(p)
}

/// A page is mapped by a sequence of areas exactly when some area contains it.
pub proof fn lemma_pages_of_dom(s: Seq<MemoryArea>, p: usize)
    ensures
        pages_of(s).dom().contains(p) <==> exists|i: int|
            0 <= i < s.len() && contains_page(#[trigger] s[i], p),
    decreases s.len(),
{
    if s.len() > 0 {
        lemma_pages_of_dom(s.drop_last(), p);
        if pages_of(s).dom().contains(p) {
            if contains_page(s.last(), p) {
                assert(contains_page(s[s.len() - 1], p));
            } else {
                let i = choose|i: int|
                    0 <= i < s.drop_last().len() && contains_page(#[trigger] s.drop_last()[i], p);
                assert(contains_page(s[i], p));
            }
        }
        if exists|i: int| 0 <= i < s.len() && contains_page(#[trigger] s[i], p) {
            let i = choose|i: int| 0 <= i < s.len() && contains_page(#[trigger] s[i], p);
            if i < s.len() - 1 {
                assert(contains_page(s.drop_last()[i], p));
            }
            assert(pages_of(s).dom().contains(p));
        }
    }
}

/// In a well-formed sequence, a page inside area `i` is mapped to that
/// area's permission set.
pub proof fn lemma_pages_of_value(s: Seq<MemoryArea>, i: int, p: usize)
    requires
        areas_wf(s),
        0 <= i < s.len(),
        contains_page(s[i], p),
    ensures
        pages_of(s).dom().contains(p),
        pages_of(s)[p] == s[i].perm,
    decreases s.len(),
{
    lemma_pages_of_dom(s, p);
    if i == s.len() - 1 {
        assert(s.last().pages().dom().contains(p));
    } else {
        assert(s[i].disjoint(s[s.len() - 1]));
        assert(!contains_page(s.last(), p));
        assert(areas_wf(s.drop_last())) by {
            assert(forall|k: int|
                0 <= k < s.drop_last().len() ==> #[trigger] s.drop_last()[k] == s[k]);
        }
        assert(s.drop_last()[i] == s[i]);
        lemma_pages_of_value(s.drop_last(), i, p);
    }
}

/// The pieces of area `a` that lie outside the page range `[start, end)`:
/// at most a left remainder below `start` and a right remainder above `end`.
fn split_outside(a: MemoryArea, start: usize, end: usize) -> (r: Vec<MemoryArea>)
    requires
        a.wf(),
        start <= end,
    ensures
        forall|k: int| 0 <= k < r@.len() ==> (#[trigger] r@[k]).wf(),
        forall|k: int| 0 <= k < r@.len() ==> (#[trigger] r@[k]).perm == a.perm,
        forall|k: int| 0 <= k < r@.len() ==> sub_area(#[trigger] r@[k], a),
        forall|k: int| 0 <= k < r@.len() ==> !ranges_intersect(#[trigger] r@[k], start, end),
        forall|k1: int, k2: int|
            0 <= k1 < k2 < r@.len() ==> (#[trigger] r@[k1]).disjoint(#[trigger] r@[k2]),
        forall|p: usize|
            (exists|k: int| 0 <= k < r@.len() && contains_page(#[trigger] r@[k], p)) <==> (
            contains_page(a, p) && !(start <= p < end)),
{
    let has_left = a.start_vpn < start;
    let has_right = a.end_vpn > end;
    let left_end = if a.end_vpn < start {
        a.end_vpn
    } else {
        start
    };
    let right_start = if a.start_vpn > end {
        a.start_vpn
    } else {
        end
    };
    let left = MemoryArea { start_vpn: a.start_vpn, end_vpn: left_end, perm: a.perm };
    let right = MemoryArea { start_vpn: right_start, end_vpn: a.end_vpn, perm: a.perm };
    let mut r: Vec<MemoryArea> = Vec::new();
    if has_left {
        r.push(left);
    }
    if has_right {
        r.push(right);
    }
    proof {
        assert forall|p: usize|
            (exists|k: int| 0 <= k < r@.len() && contains_page(#[trigger] r@[k], p)) <==> (
            contains_page(a, p) && !(start <= p < end)) by {
            if contains_page(a, p) && !(start <= p < end) {
                if p < start {
                    assert(contains_page(r@[0], p));
                } else {
                    if has_left {
                        assert(contains_page(r@[1], p));
                    } else {
                        assert(contains_page(r@[0], p));
                    }
                }
            }
        }
    }
    r
}

/// Per-address-space collection of mapped regions.
pub struct AddressSpace {
    areas: Vec<MemoryArea>,
}

impl View for AddressSpace {
    type V = Map<usize, MapPermission>;

    /// Model: the map from each mapped virtual page to its permission set.
    closed spec fn view(&self) -> Map<usize, MapPermission> {
        pages_of(self.areas@)
    }
}

impl AddressSpace {
    /// The store's regions are pairwise disjoint and each holds a page.
    pub closed spec fn wf(self) -> bool {
        areas_wf(self.areas@)
    }

    /// An address space with nothing mapped.
    pub fn new() -> (r: AddressSpace)
        ensures
            r.wf(),
            r@ == Map::<usize, MapPermission>::empty(),
    {
        AddressSpace { areas: Vec::new() }
    }

    /// Whether page `vpn` is mapped.
    pub fn is_mapped(&self, vpn: usize) -> (b: bool)
        ensures
            b == self@.dom().contains(vpn),
    {
        let n = self.areas.len();
        let mut i: usize = 0;
        while i < n
            invariant
                n == self.areas@.len(),
                forall|j: int| 0 <= j < i ==> !contains_page(#[trigger] self.areas@[j], vpn),
            decreases n - i,
        {
            let a = self.areas[i];
            if a.start_vpn <= vpn && vpn < a.end_vpn {
                proof {
                    lemma_pages_of_dom(self.areas@, vpn);
                }
                return true;
            }
            i += 1;
        }
        proof {
            lemma_pages_of_dom(self.areas@, vpn);
        }
        false
    }

    /// The permission set of page `vpn`, or `None` when it is unmapped.
    pub fn perm_of(&self, vpn: usize) -> (r: Option<MapPermission>)
        requires
            self.wf(),
        ensures
            match r {
                Some(perm) => self@.dom().contains(vpn) && self@[vpn] == perm,
                None => !self@.dom().contains(vpn),
            },
    {
        let n = self.areas.len();
        let mut i: usize = 0;
        while i < n
            invariant
                self.wf(),
                n == self.areas@.len(),
                forall|j: int| 0 <= j < i ==> !contains_page(#[trigger] self.areas@[j], vpn),
            decreases n - i,
        {
            let a = self.areas[i];
            if a.start_vpn <= vpn && vpn < a.end_vpn {
                proof {
                    lemma_pages_of_value(self.areas@, i as int, vpn);
                }
                return Some(a.perm);
            }
            i += 1;
        }
        proof {
            lemma_pages_of_dom(self.areas@, vpn);
        }
        None
    }

    /// Whether any page of `[start_vpn, end_vpn)` is already mapped.
    pub fn range_overlaps(&self, start_vpn: usize, end_vpn: usize) -> (b: bool)
        ensures
            b == overlaps_range(self@, start_vpn, end_vpn),
    {
        let n = self.areas.len();
        let mut i: usize = 0;
        while i < n
            invariant
                n == self.areas@.len(),
                forall|j: int|
                    0 <= j < i ==> !ranges_intersect(#[trigger] self.areas@[j], start_vpn, end_vpn),
            decreases n - i,
        {
            let a = self.areas[i];
            let lo = if a.start_vpn > start_vpn {
                a.start_vpn
            } else {
                start_vpn
            };
            let hi = if a.end_vpn < end_vpn {
                a.end_vpn
            } else {
                end_vpn
            };
            if lo < hi {
                proof {
                    assert(contains_page(self.areas@[i as int], lo));
                    lemma_pages_of_dom(self.areas@, lo);
                    assert(start_vpn <= lo < end_vpn && self@.dom().contains(lo));
                }
                return true;
            }
            i += 1;
        }
        proof {
            assert forall|p: usize| !(start_vpn <= p < end_vpn && #[trigger] self@.dom().contains(
                p,
            )) by {
                if start_vpn <= p < end_vpn && self@.dom().contains(p) {
                    lemma_pages_of_dom(self.areas@, p);
                    let j = choose|j: int|
                        0 <= j < self.areas@.len() && contains_page(#[trigger] self.areas@[j], p);
                    assert(ranges_intersect(self.areas@[j], start_vpn, end_vpn));
                }
            }
        }
        false
    }

    /// Map the pages `[start_vpn, end_vpn)` with permission set `perm`.
    /// The range must hold a page and must not touch an existing region.
    pub fn insert(&mut self, start_vpn: usize, end_vpn: usize, perm: MapPermission)
        requires
            old(self).wf(),
            start_vpn < end_vpn,
            !overlaps_range(old(self)@, start_vpn, end_vpn),
        ensures
            final(self).wf(),
            final(self)@ == old(self)@.union_prefer_right(range_map(start_vpn, end_vpn, perm)),
    {
        let ghost s0 = self.areas@;
        let a = MemoryArea { start_vpn, end_vpn, perm };
        self.areas.push(a);
        proof {
            assert(self.areas@.drop_last() =~= s0);
            assert(self.areas@.last() == a);
            assert(self@ == pages_of(s0).union_prefer_right(a.pages()));
            assert(a.pages() =~= range_map(start_vpn, end_vpn, perm));
            assert forall|j: int| 0 <= j < s0.len() implies (#[trigger] s0[j]).disjoint(a) by {
                if !s0[j].disjoint(a) {
                    let p: usize = if s0[j].start_vpn > start_vpn {
                        s0[j].start_vpn
                    } else {
                        start_vpn
                    };
                    assert(contains_page(s0[j], p) && start_vpn <= p < end_vpn);
                    lemma_pages_of_dom(s0, p);
                    assert(overlaps_range(old(self)@, start_vpn, end_vpn));
                }
            }
            assert(areas_wf(self.areas@)) by {
                assert(forall|k: int|
                    0 <= k < s0.len() ==> #[trigger] self.areas@[k] == s0[k]);
            }
        }
    }

    /// Unmap every page of `[start_vpn, end_vpn)`.  The removal is
    /// all-or-nothing: it succeeds exactly when every page of the range is
    /// mapped, and otherwise leaves the store unchanged.
    pub fn remove_range(&mut self, start_vpn: usize, end_vpn: usize) -> (ok: bool)
        requires
            old(self).wf(),
            start_vpn <= end_vpn,
        ensures
            final(self).wf(),
            ok == range_fully_mapped(old(self)@, start_vpn, end_vpn),
            ok ==> final(self)@ == old(self)@.remove_keys(page_set(start_vpn, end_vpn)),
            !ok ==> final(self)@ == old(self)@,
    {
        let mut p = start_vpn;
        while p < end_vpn
            invariant
                self.wf(),
                self.areas@ == old(self).areas@,
                start_vpn <= p <= end_vpn,
                forall|q: usize| start_vpn <= q < p ==> #[trigger] self@.dom().contains(q),
            decreases end_vpn - p,
        {
            if !self.is_mapped(p) {
                return false;
            }
            p += 1;
        }
        let ghost areas0 = self.areas@;
        let n = self.areas.len();
        let mut out: Vec<MemoryArea> = Vec::new();
        let mut i: usize = 0;
        while i < n
            invariant
                self.areas@ == old(self).areas@,
                areas_wf(self.areas@),
                n == self.areas@.len(),
                start_vpn <= end_vpn,
                i <= n,
                forall|k: int| 0 <= k < out@.len() ==> (#[trigger] out@[k]).wf(),
                forall|k: int|
                    0 <= k < out@.len() ==> !ranges_intersect(
                        #[trigger] out@[k],
                        start_vpn,
                        end_vpn,
                    ),
                forall|k: int|
                    0 <= k < out@.len() ==> exists|j: int|
                        0 <= j < i && sub_area(#[trigger] out@[k], #[trigger] self.areas@[j]),
                forall|k1: int, k2: int|
                    0 <= k1 < k2 < out@.len() ==> (#[trigger] out@[k1]).disjoint(
                        #[trigger] out@[k2],
                    ),
                forall|q: usize|
                    #[trigger] pages_of(out@).dom().contains(q) <==> ((exists|j: int|
                        0 <= j < i && contains_page(#[trigger] self.areas@[j], q)) && !(start_vpn
                        <= q < end_vpn)),
                forall|q: usize, j: int|
                    0 <= j < i && #[trigger] contains_page(self.areas@[j], q) && !(start_vpn <= q
                        < end_vpn) ==> pages_of(out@)[q] == self.areas@[j].perm,
            decreases n - i,
        {
            let a = self.areas[i];
            let ghost out0 = out@;
            let mut pieces = split_outside(a, start_vpn, end_vpn);
            let ghost ps = pieces@;
            out.append(&mut pieces);
            proof {
                let len0 = out0.len() as int;
                assert(out@ == out0 + ps);
                assert(forall|k: int| 0 <= k < len0 ==> #[trigger] out@[k] == out0[k]);
                assert(forall|k: int|
                    len0 <= k < out@.len() ==> #[trigger] out@[k] == ps[k - len0]);
                // pairwise disjointness of the extended list
                assert forall|k1: int, k2: int|
                    0 <= k1 < k2 < out@.len() implies (#[trigger] out@[k1]).disjoint(
                    #[trigger] out@[k2]) by {
                    if k1 < len0 && k2 >= len0 {
                        let j = choose|j: int|
                            0 <= j < i && sub_area(out0[k1], #[trigger] self.areas@[j]);
                        assert(self.areas@[j].disjoint(self.areas@[i as int]));
                        assert(sub_area(ps[k2 - len0], a));
                    }
                }
                // containment of every piece in some original area
                assert forall|k: int| 0 <= k < out@.len() implies exists|j: int|
                    0 <= j < i + 1 && sub_area(#[trigger] out@[k], #[trigger] self.areas@[j]) by {
                    if k < len0 {
                        let j = choose|j: int|
                            0 <= j < i && sub_area(out0[k], #[trigger] self.areas@[j]);
                        assert(sub_area(out@[k], self.areas@[j]));
                    } else {
                        assert(sub_area(out@[k], self.areas@[i as int]));
                    }
                }
                // the pages now held by `out` are those of the first i + 1
                // areas, less the removed range
                assert forall|q: usize|
                    #[trigger] pages_of(out@).dom().contains(q) <==> ((exists|j: int|
                        0 <= j < i + 1 && contains_page(#[trigger] self.areas@[j], q)) && !(
                    start_vpn <= q < end_vpn)) by {
                    lemma_pages_of_dom(out@, q);
                    lemma_pages_of_dom(out0, q);
                    if pages_of(out@).dom().contains(q) {
                        let k = choose|k: int|
                            0 <= k < out@.len() && contains_page(#[trigger] out@[k], q);
                        if k < len0 {
                            assert(contains_page(out0[k], q));
                        } else {
                            assert(contains_page(ps[k - len0], q));
                            assert(exists|k2: int|
                                0 <= k2 < ps.len() && contains_page(#[trigger] ps[k2], q));
                            assert(contains_page(self.areas@[i as int], q));
                        }
                    }
                    if (exists|j: int| 0 <= j < i + 1 && contains_page(#[trigger] self.areas@[j], q))
                        && !(start_vpn <= q < end_vpn) {
                        let j = choose|j: int|
                            0 <= j < i + 1 && contains_page(#[trigger] self.areas@[j], q);
                        if j < i {
                            assert(pages_of(out0).dom().contains(q));
                            let k = choose|k: int|
                                0 <= k < out0.len() && contains_page(#[trigger] out0[k], q);
                            assert(contains_page(out@[k], q));
                        } else {
                            assert(contains_page(a, q));
                            let k2 = choose|k2: int|
                                0 <= k2 < ps.len() && contains_page(#[trigger] ps[k2], q);
                            assert(contains_page(out@[len0 + k2], q));
                        }
                        assert(pages_of(out@).dom().contains(q));
                    }
                }
                // and each such page keeps the permission of its area
                assert forall|q: usize, j: int|
                    0 <= j < i + 1 && #[trigger] contains_page(self.areas@[j], q) && !(start_vpn
                        <= q < end_vpn) implies pages_of(out@)[q] == self.areas@[j].perm by {
                    assert(pages_of(out@).dom().contains(q));
                    lemma_pages_of_dom(out@, q);
                    let k = choose|k: int|
                        0 <= k < out@.len() && contains_page(#[trigger] out@[k], q);
                    assert(areas_wf(out@));
                    lemma_pages_of_value(out@, k, q);
                    if k < len0 {
                        let j2 = choose|j2: int|
                            0 <= j2 < i && sub_area(out0[k], #[trigger] self.areas@[j2]);
                        assert(contains_page(self.areas@[j2], q));
                        if j != j2 {
                            assert(self.areas@[j].disjoint(self.areas@[j2]));
                            assert(false);
                        }
                        assert(pages_of(out0)[q] == self.areas@[j2].perm);
                        lemma_pages_of_value(out0, k, q);
                        assert(out@[k].perm == out0[k].perm);
                    } else {
                        assert(contains_page(a, q));
                        if j != i {
                            assert(self.areas@[j].disjoint(self.areas@[i as int]));
                            assert(false);
                        }
                        assert(out@[k].perm == a.perm);
                    }
                }
            }
            i += 1;
        }
        self.areas = out;
        proof {
            assert forall|q: usize|
                #[trigger] pages_of(areas0).dom().contains(q) <==> exists|j: int|
                    0 <= j < areas0.len() && contains_page(#[trigger] areas0[j], q) by {
                lemma_pages_of_dom(areas0, q);
            }
            assert forall|q: usize, j: int|
                0 <= j < areas0.len() && #[trigger] contains_page(areas0[j], q) implies pages_of(
                areas0,
            )[q] == areas0[j].perm by {
                lemma_pages_of_value(areas0, j, q);
            }
            assert(self@ =~= pages_of(areas0).remove_keys(page_set(start_vpn, end_vpn)));
        }
        true
    }
}

} // verus!

use vstd::prelude::*;

use crate::err::{HvError, HvResult};

verus! {

/// Granule of the stage-2 translation.
pub const PAGE_SIZE: u64 = 4096;

/// Memory-attribute flag bits carried through from the configuration
/// descriptor; the core transports them, the page-table collaborator
/// interprets them.
pub const MEM_READ: u64 = 1;

pub const MEM_WRITE: u64 = 2;

pub const MEM_EXECUTE: u64 = 4;

pub const MEM_IO: u64 = 8;

pub const MEM_NO_HUGEPAGES: u64 = 16;

/// `size` is a whole number of pages.
pub open spec fn spec_is_aligned(size: u64) -> bool {
    size % 4096 == 0
}

/// Whether a size is page-aligned.
pub fn is_aligned(size: u64) -> (r: bool)
    ensures
        r == spec_is_aligned(size),
{
    size % PAGE_SIZE == 0
}

/// Number of pages needed to hold `size` bytes.
pub open spec fn spec_npages(size: u64) -> u64 {
    (size / 4096 + if size % 4096 != 0 {
        1u64
    } else {
        0u64
    }) as u64
}

/// Page count of a byte size, rounding up.
pub fn npages(size: u64) -> (r: u64)
    ensures
        r == spec_npages(size),
{
    size / PAGE_SIZE + if size % PAGE_SIZE != 0 {
        1
    } else {
        0
    }
}

/// A mapped guest-physical region: guest start, backing host-physical start,
/// size, and attribute flags. The mapping is a fixed offset (`phys_start -
/// start`) over the whole range.
#[derive(Clone, Copy, Debug, PartialEq, Eq, Structural)]
pub struct MemoryRegion {
    pub start: u64,
    pub phys_start: u64,
    pub size: u64,
    pub flags: u64,
}

impl MemoryRegion {
    pub open spec fn wf(self) -> bool {
        &&& self.size > 0
        &&& self.start + self.size <= u64::MAX
        &&& self.phys_start + self.size <= u64::MAX
    }

    /// Guest address `a` falls inside the region.
    pub open spec fn spec_contains_addr(self, a: int) -> bool {
        self.start <= a < self.start + self.size
    }

    /// The host-physical address backing guest address `a`.
    pub open spec fn spec_translate(self, a: int) -> int {
        self.phys_start + (a - self.start)
    }

    /// Build a region mapping `[start, start + size)` to
    /// `[phys_start, phys_start + size)`.
    pub fn new_with_offset_mapper(start: u64, phys_start: u64, size: u64, flags: u64) -> (r: Self)
        requires
            size > 0,
            start + size <= u64::MAX,
            phys_start + size <= u64::MAX,
        ensures
            r == (MemoryRegion { start, phys_start, size, flags }),
            r.wf(),
    {
        MemoryRegion { start, phys_start, size, flags }
    }
}

/// Two regions overlap in guest address space.
pub open spec fn spec_overlaps(a: MemoryRegion, b: MemoryRegion) -> bool {
    a.start < b.start + b.size && b.start < a.start + a.size
}

/// The guest-physical memory view of one cell: the set of regions the
/// stage-2 translation maps. Regions never overlap.
#[derive(Debug)]
pub struct MemorySet {
    regions: Vec<MemoryRegion>,
}

impl MemorySet {
    pub closed spec fn spec_regions(self) -> Seq<MemoryRegion> {
        self.regions@
    }

    pub open spec fn wf(self) -> bool {
        &&& forall|i: int| 0 <= i < self.spec_regions().len() ==> (#[trigger] self.spec_regions()[i]).wf()
        &&& forall|i: int, j: int|
            0 <= i < self.spec_regions().len() && 0 <= j < self.spec_regions().len() && i != j
                ==> !spec_overlaps(#[trigger] self.spec_regions()[i], #[trigger] self.spec_regions()[j])
    }

    /// Some mapped region contains guest address `a`.
    pub open spec fn spec_maps_addr(self, a: int) -> bool {
        exists|i: int| 0 <= i < self.spec_regions().len()
            && (#[trigger] self.spec_regions()[i]).spec_contains_addr(a)
    }

    /// An empty address space.
    pub fn new() -> (r: Self)
        ensures
            r.wf(),
            r.spec_regions() == Seq::<MemoryRegion>::empty(),
    {
        MemorySet { regions: Vec::new() }
    }

    /// Map a region. Fails with `Overlap`, leaving the set unchanged, exactly
    /// when the new region intersects one already mapped.
    pub fn insert(&mut self, region: MemoryRegion) -> (res: HvResult)
        requires
            old(self).wf(),
            region.wf(),
        ensures
            final(self).wf(),
            (res is Ok) <==> (forall|i: int|
                0 <= i < old(self).spec_regions().len()
                    ==> !spec_overlaps(#[trigger] old(self).spec_regions()[i], region)),
            res is Ok ==> final(self).spec_regions() == old(self).spec_regions().push(region),
            res is Err ==> *final(self) == *old(self)
                && res == Err::<(), HvError>(HvError::Overlap),
    {
        let n: usize = self.regions.len();
        let mut i: usize = 0;
        while i < n
            invariant
                n == self.regions@.len(),
                i <= n,
                self.wf(),
                region.wf(),
                *self == *old(self),
                forall|j: int| 0 <= j < i ==> !spec_overlaps(#[trigger] self.spec_regions()[j], region),
            decreases n - i,
        {
            let r = &self.regions[i];
            if r.start < region.start + region.size && region.start < r.start + r.size {
                return Err(HvError::Overlap);
            }
            i = i + 1;
        }
        self.regions.push(region);
        proof {
            let s = self.spec_regions();
            let old_s = old(self).spec_regions();
            assert forall|i: int, j: int|
                0 <= i < s.len() && 0 <= j < s.len() && i != j
                    implies !spec_overlaps(#[trigger] s[i], #[trigger] s[j]) by {
                if i == s.len() - 1 {
                    assert(!spec_overlaps(old_s[j], region));
                } else if j == s.len() - 1 {
                    assert(!spec_overlaps(old_s[i], region));
                }
            }
        }
        Ok(())
    }

    /// Map a region that may sit beside existing mappings; in this model it
    /// carries the same contract as `insert`.
    pub fn map_partial(&mut self, region: &MemoryRegion) -> (res: HvResult)
        requires
            old(self).wf(),
            region.wf(),
        ensures
            final(self).wf(),
            (res is Ok) <==> (forall|i: int|
                0 <= i < old(self).spec_regions().len()
                    ==> !spec_overlaps(#[trigger] old(self).spec_regions()[i], *region)),
            res is Ok ==> final(self).spec_regions() == old(self).spec_regions().push(*region),
            res is Err ==> *final(self) == *old(self)
                && res == Err::<(), HvError>(HvError::Overlap),
    {
        self.insert(*region)
    }

    /// Unmap the region with exactly this guest start and size. Fails with
    /// `NotFound`, leaving the set unchanged, when no such region is mapped.
    pub fn unmap_partial(&mut self, region: &MemoryRegion) -> (res: HvResult)
        requires
            old(self).wf(),
        ensures
            final(self).wf(),
            (res is Ok) <==> (exists|i: int|
                0 <= i < old(self).spec_regions().len()
                    && (#[trigger] old(self).spec_regions()[i]).start == region.start
                    && old(self).spec_regions()[i].size == region.size),
            res is Ok ==> exists|i: int|
                0 <= i < old(self).spec_regions().len()
                    && (#[trigger] old(self).spec_regions()[i]).start == region.start
                    && old(self).spec_regions()[i].size == region.size
                    && final(self).spec_regions() == old(self).spec_regions().remove(i)
                    && (forall|j: int| 0 <= j < i
                        ==> !((#[trigger] old(self).spec_regions()[j]).start == region.start
                            && old(self).spec_regions()[j].size == region.size)),
            res is Err ==> *final(self) == *old(self)
                && res == Err::<(), HvError>(HvError::NotFound),
    {
        let n: usize = self.regions.len();
        let mut i: usize = 0;
        while i < n
            invariant
                n == self.regions@.len(),
                i <= n,
                self.wf(),
                *self == *old(self),
                forall|j: int| 0 <= j < i
                    ==> !((#[trigger] self.spec_regions()[j]).start == region.start
                        && self.spec_regions()[j].size == region.size),
            decreases n - i,
        {
            let r = &self.regions[i];
            if r.start == region.start && r.size == region.size {
                self.regions.remove(i);
                proof {
                    let s = self.spec_regions();
                    let old_s = old(self).spec_regions();
                    assert(s == old_s.remove(i as int));
                    assert forall|a: int, b: int|
                        0 <= a < s.len() && 0 <= b < s.len() && a != b
                            implies !spec_overlaps(#[trigger] s[a], #[trigger] s[b]) by {
                        let a0 = if a < i { a } else { a + 1 };
                        let b0 = if b < i { b } else { b + 1 };
                        assert(s[a] == old_s[a0]);
                        assert(s[b] == old_s[b0]);
                    }
                }
                return Ok(());
            }
            i = i + 1;
        }
        Err(HvError::NotFound)
    }

    /// Translate guest address `gpa` through the mapped regions. Returns the
    /// backing host-physical address, or `None` when nothing maps `gpa`.
    pub fn page_table_query(&self, gpa: u64) -> (r: Option<u64>)
        requires
            self.wf(),
        ensures
            (r is Some) <==> self.spec_maps_addr(gpa as int),
            forall|i: int|
                0 <= i < self.spec_regions().len()
                    && (#[trigger] self.spec_regions()[i]).spec_contains_addr(gpa as int)
                    ==> r == Some(self.spec_regions()[i].spec_translate(gpa as int) as u64),
    {
        let n: usize = self.regions.len();
        let mut i: usize = 0;
        while i < n
            invariant
                n == self.regions@.len(),
                i <= n,
                self.wf(),
                forall|j: int| 0 <= j < i
                    ==> !(#[trigger] self.spec_regions()[j]).spec_contains_addr(gpa as int),
            decreases n - i,
        {
            let r = &self.regions[i];
            proof {
                assert(self.spec_regions()[i as int].wf());
            }
            if gpa >= r.start && gpa - r.start < r.size {
                proof {
                    assert(self.spec_regions()[i as int].spec_contains_addr(gpa as int));
                }
                let pa: u64 = r.phys_start + (gpa - r.start);
                proof {
                    assert forall|j: int|
                        0 <= j < self.spec_regions().len()
                            && (#[trigger] self.spec_regions()[j]).spec_contains_addr(gpa as int)
                            implies self.spec_regions()[j] == self.spec_regions()[i as int] by {
                        if j != i {
                            assert(spec_overlaps(self.spec_regions()[j], self.spec_regions()[i as int]));
                        }
                    }
                }
                return Some(pa);
            }
            i = i + 1;
        }
        None
    }
}

/// Round trip of the translation state: mapping a fresh region and then
/// unmapping the identical region restores the original region sequence,
/// whichever matching index the unmap picks.
pub proof fn lemma_insert_unmap_round_trip(s: Seq<MemoryRegion>, r: MemoryRegion)
    requires
        r.wf(),
        forall|i: int| 0 <= i < s.len() ==> (#[trigger] s[i]).wf(),
        forall|i: int| 0 <= i < s.len() ==> !spec_overlaps(#[trigger] s[i], r),
    ensures
        forall|i: int|
            0 <= i < s.push(r).len() && (#[trigger] s.push(r)[i]).start == r.start
                && s.push(r)[i].size == r.size ==> s.push(r).remove(i) =~= s,
{
    assert forall|i: int|
        0 <= i < s.push(r).len() && (#[trigger] s.push(r)[i]).start == r.start
            && s.push(r)[i].size == r.size implies s.push(r).remove(i) =~= s by {
        if i < s.len() {
            // A distinct region with the same start and a positive size would
            // overlap `r`, so only the appended region itself can match.
            assert(s[i].start == r.start && s[i].size == r.size);
            assert(spec_overlaps(s[i], r));
        } else {
            assert(i == s.len());
        }
    }
}

} // verus!

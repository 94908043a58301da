use vstd::prelude::*;

use crate::bitmap::{diff_semantics, IrqBitmap};
use crate::config::{
    spec_config_eq, CellConfig, HvConsole, HvIrqChip, HvMemoryRegion, HvSystemConfig,
};
use crate::cpuset::{cpu_bit, spec_first_cpu_of, CpuSet};
use crate::err::{HvError, HvResult};
use crate::gic::{GicState, GICD_SIZE, GICR_SIZE};
use crate::memory::{
    is_aligned, npages, spec_is_aligned, spec_npages, MemoryRegion, MemorySet, spec_overlaps,
    MEM_IO, MEM_NO_HUGEPAGES, MEM_READ, MEM_WRITE,
};
use crate::mmio::{MMIOConfig, MMIOHandler, MMIORegion};
use crate::percpu::{mpidr_to_cpuid, spec_mpidr_to_cpuid, PerCpuList};

verus! {

/// The shared communication region a cell sees in its comm page.
#[derive(Clone, Copy, Debug)]
pub struct CommRegion {
    pub signature: [u8; 6],
    pub revision: u16,
    pub cell_state: u32,
    pub msg_to_cell: u32,
    pub reply_from_cell: u32,
    pub flags: u32,
    pub console: HvConsole,
    pub gic_version: u8,
    pub gicd_base: u64,
    pub gicc_base: u64,
    pub gicr_base: u64,
}

/// The all-zero communication region.
pub open spec fn spec_comm_region_zero() -> CommRegion {
    CommRegion {
        signature: [0u8, 0u8, 0u8, 0u8, 0u8, 0u8],
        revision: 0,
        cell_state: 0,
        msg_to_cell: 0,
        reply_from_cell: 0,
        flags: 0,
        console: (HvConsole { address: 0, size: 0, flags: 0 }),
        gic_version: 0,
        gicd_base: 0,
        gicc_base: 0,
        gicr_base: 0,
    }
}

impl CommRegion {
    pub fn new() -> (r: Self)
        ensures
            r == spec_comm_region_zero(),
    {
        CommRegion {
            signature: [0, 0, 0, 0, 0, 0],
            revision: 0,
            cell_state: 0,
            msg_to_cell: 0,
            reply_from_cell: 0,
            flags: 0,
            console: HvConsole::new(),
            gic_version: 0,
            gicd_base: 0,
            gicc_base: 0,
            gicr_base: 0,
        }
    }
}

/// The one-page region a cell and the hypervisor share.
#[derive(Clone, Copy, Debug)]
pub struct CommPage {
    pub comm_region: CommRegion,
}

impl CommPage {
    pub fn new() -> (r: Self)
        ensures
            r.comm_region == spec_comm_region_zero(),
    {
        CommPage { comm_region: CommRegion::new() }
    }

    /// Reset the whole page to zeroes.
    pub fn fill_zero(&mut self)
        ensures
            final(self).comm_region == spec_comm_region_zero(),
    {
        self.comm_region = CommRegion::new();
    }
}

/// One partition: its configuration, communication page, guest-physical
/// memory view, MMIO trap table, CPU set, and interrupt-ownership bitmap.
#[derive(Debug)]
pub struct Cell {
    pub comm_page: CommPage,
    pub config: CellConfig,
    pub gpm: MemorySet,
    pub mmio: Vec<MMIOConfig>,
    pub cpu_set: CpuSet,
    pub irq_bitmap: IrqBitmap,
    pub loadable: bool,
}

/// `a` and `b` agree on everything but the MMIO table.
pub open spec fn spec_eq_except_mmio(a: Cell, b: Cell) -> bool {
    &&& a.comm_page == b.comm_page
    &&& a.config == b.config
    &&& a.spec_gpm() == b.spec_gpm()
    &&& a.cpu_set == b.cpu_set
    &&& a.irq_bitmap == b.irq_bitmap
    &&& a.loadable == b.loadable
}

/// `a` and `b` agree on everything but the address space and MMIO table.
pub open spec fn spec_eq_except_memory(a: Cell, b: Cell) -> bool {
    &&& a.comm_page == b.comm_page
    &&& a.config == b.config
    &&& a.cpu_set == b.cpu_set
    &&& a.irq_bitmap == b.irq_bitmap
    &&& a.loadable == b.loadable
}

/// `a` and `b` agree on everything but the interrupt bitmap.
pub open spec fn spec_eq_except_irq(a: Cell, b: Cell) -> bool {
    &&& a.comm_page == b.comm_page
    &&& a.config == b.config
    &&& a.spec_gpm() == b.spec_gpm()
    &&& a.mmio@ == b.mmio@
    &&& a.cpu_set == b.cpu_set
    &&& a.loadable == b.loadable
}

/// The MMIO trap entry standing for a sub-page region: the opaque argument
/// records the backing physical start so the generic handler can relay the
/// access.
pub open spec fn spec_subpage_cfg(r: MemoryRegion) -> MMIOConfig {
    MMIOConfig {
        region: MMIORegion { start: r.start, size: r.size },
        handler: MMIOHandler::Subpage,
        arg: r.phys_start,
    }
}

/// A region insert succeeds: a page-multiple region must not overlap the
/// mapped regions, a sub-page region must not collide with a registered
/// MMIO start.
pub open spec fn spec_insert_ok(g: Seq<MemoryRegion>, m: Seq<MMIOConfig>, r: MemoryRegion) -> bool {
    if spec_is_aligned(r.size) {
        forall|i: int| 0 <= i < g.len() ==> !spec_overlaps(#[trigger] g[i], r)
    } else {
        forall|i: int| 0 <= i < m.len() ==> (#[trigger] m[i]).region.start != r.start
    }
}

/// The error a failing region insert reports.
pub open spec fn spec_insert_err(r: MemoryRegion) -> HvError {
    if spec_is_aligned(r.size) {
        HvError::Overlap
    } else {
        HvError::DuplicateMmio
    }
}

/// The mapped regions after inserting `r`.
pub open spec fn spec_insert_gpm(g: Seq<MemoryRegion>, r: MemoryRegion) -> Seq<MemoryRegion> {
    if spec_is_aligned(r.size) {
        g.push(r)
    } else {
        g
    }
}

/// The MMIO table after inserting `r`.
pub open spec fn spec_insert_mmio(m: Seq<MMIOConfig>, r: MemoryRegion) -> Seq<MMIOConfig> {
    if spec_is_aligned(r.size) {
        m
    } else {
        m.push(spec_subpage_cfg(r))
    }
}

impl Cell {
    pub open spec fn spec_gpm(self) -> MemorySet {
        self.gpm
    }

    pub open spec fn wf(self) -> bool {
        &&& self.config.wf()
        &&& self.irq_bitmap.wf()
        &&& self.spec_gpm().wf()
        &&& forall|i: int| 0 <= i < self.mmio@.len() ==> (#[trigger] self.mmio@[i]).region.wf()
        &&& forall|i: int, j: int|
            0 <= i < j < self.mmio@.len()
                ==> (#[trigger] self.mmio@[i]).region.start != (#[trigger] self.mmio@[j]).region.start
    }

    /// The cell's identifier, as declared by its configuration.
    pub fn id(&self) -> (r: u32)
        ensures
            r == self.config.id,
    {
        self.config.id
    }

    /// The cell's configuration descriptor.
    pub fn config(&self) -> (r: &CellConfig)
        ensures
            r == &self.config,
    {
        &self.config
    }

    /// The cell owns physical CPU `id`.
    pub fn owns_cpu(&self, id: u64) -> (r: bool)
        ensures
            r == self.cpu_set.spec_contains(id as int),
    {
        self.cpu_set.contains_cpu(id)
    }

    /// The cell owns interrupt `irq_id`.
    pub fn irq_in_cell(&self, irq_id: u32) -> (r: bool)
        requires
            self.wf(),
            irq_id < 1024,
        ensures
            r == self.irq_bitmap.spec_has(irq_id as int),
    {
        self.irq_bitmap.get(irq_id)
    }

    /// Ask every CPU of the cell except the calling one to pause. Returns
    /// the identifiers to signal, in increasing order; the embedding runtime
    /// delivers the signals (fire-and-forget).
    pub fn suspend(&self, this_cpu: u64) -> (r: Vec<u64>)
        ensures
            forall|a: int, b: int| 0 <= a < b < r@.len() ==> r@[a] < r@[b],
            forall|c: u64| r@.contains(c) ==> self.cpu_set.spec_contains(c as int) && c != this_cpu,
            forall|c: u64| self.cpu_set.spec_contains(c as int) && c != this_cpu ==> r@.contains(c),
    {
        self.cpu_set.iter_except(this_cpu)
    }

    /// Ask every CPU of the cell except the calling one to continue; same
    /// target set as `suspend`.
    pub fn resume(&self, this_cpu: u64) -> (r: Vec<u64>)
        ensures
            forall|a: int, b: int| 0 <= a < b < r@.len() ==> r@[a] < r@[b],
            forall|c: u64| r@.contains(c) ==> self.cpu_set.spec_contains(c as int) && c != this_cpu,
            forall|c: u64| self.cpu_set.spec_contains(c as int) && c != this_cpu ==> r@.contains(c),
    {
        self.cpu_set.iter_except(this_cpu)
    }

    /// Translate a guest-physical address through the cell's stage-2 view.
    pub fn gpm_query(&self, gpa: u64) -> (r: Option<u64>)
        requires
            self.wf(),
        ensures
            (r is Some) <==> self.spec_gpm().spec_maps_addr(gpa as int),
            forall|i: int|
                0 <= i < self.spec_gpm().spec_regions().len()
                    && (#[trigger] self.spec_gpm().spec_regions()[i]).spec_contains_addr(gpa as int)
                    ==> r == Some(self.spec_gpm().spec_regions()[i].spec_translate(gpa as int) as u64),
    {
        self.gpm.page_table_query(gpa)
    }

    /// Register an MMIO trap. Fails with `DuplicateMmio`, changing nothing,
    /// exactly when a region with the same start is already registered.
    pub fn mmio_region_register(
        &mut self,
        start: u64,
        size: u64,
        handler: MMIOHandler,
        arg: u64,
    ) -> (res: HvResult)
        requires
            old(self).wf(),
            start + size <= u64::MAX,
        ensures
            final(self).wf(),
            spec_eq_except_mmio(*final(self), *old(self)),
            (res is Ok) <==> (forall|i: int|
                0 <= i < old(self).mmio@.len()
                    ==> (#[trigger] old(self).mmio@[i]).region.start != start),
            res is Ok ==> final(self).mmio@ == old(self).mmio@.push(
                MMIOConfig { region: (MMIORegion { start, size }), handler, arg },
            ),
            res is Err ==> final(self).mmio@ == old(self).mmio@
                && res == Err::<(), HvError>(HvError::DuplicateMmio),
    {
        let n: usize = self.mmio.len();
        let mut i: usize = 0;
        while i < n
            invariant
                n == self.mmio@.len(),
                i <= n,
                self.wf(),
                *self == *old(self),
                forall|j: int| 0 <= j < i ==> (#[trigger] self.mmio@[j]).region.start != start,
            decreases n - i,
        {
            if self.mmio[i].region.start == start {
                return Err(HvError::DuplicateMmio);
            }
            i = i + 1;
        }
        self.mmio.push(MMIOConfig { region: MMIORegion { start, size }, handler, arg });
        Ok(())
    }

    /// Remove the MMIO trap starting at `start`; a miss changes nothing.
    #[verifier::rlimit(50)]
    pub fn mmio_region_unregister(&mut self, start: u64)
        requires
            old(self).wf(),
        ensures
            final(self).wf(),
            spec_eq_except_mmio(*final(self), *old(self)),
            (exists|i: int|
                0 <= i < old(self).mmio@.len()
                    && (#[trigger] old(self).mmio@[i]).region.start == start) ==> exists|i: int|
                0 <= i < old(self).mmio@.len()
                    && (#[trigger] old(self).mmio@[i]).region.start == start
                    && final(self).mmio@ == old(self).mmio@.remove(i)
                    && (forall|j: int| 0 <= j < i
                        ==> (#[trigger] old(self).mmio@[j]).region.start != start),
            (forall|i: int|
                0 <= i < old(self).mmio@.len()
                    ==> (#[trigger] old(self).mmio@[i]).region.start != start)
                ==> final(self).mmio@ == old(self).mmio@,
    {
        let n: usize = self.mmio.len();
        let mut i: usize = 0;
        while i < n
            invariant
                n == self.mmio@.len(),
                i <= n,
                self.wf(),
                *self == *old(self),
                forall|j: int| 0 <= j < i ==> (#[trigger] self.mmio@[j]).region.start != start,
            decreases n - i,
        {
            if self.mmio[i].region.start == start {
                self.mmio.remove(i);
                proof {
                    let s = self.mmio@;
                    let old_s = old(self).mmio@;
                    assert forall|a: int, b: int|
                        0 <= a < b < s.len()
                            implies (#[trigger] s[a]).region.start != (#[trigger] s[b]).region.start by {
                        let a0 = if a < i { a } else { a + 1 };
                        let b0 = if b < i { b } else { b + 1 };
                        assert(s[a] == old_s[a0]);
                        assert(s[b] == old_s[b0]);
                    }
                }
                return ;
            }
            i = i + 1;
        }
    }

    /// Find the registered MMIO trap whose region wholly contains the access
    /// `[addr, addr + size)`. A miss is reported to the caller as `None`.
    pub fn find_mmio_region(&self, addr: u64, size: u64) -> (r: Option<(MMIORegion, MMIOHandler, u64)>)
        requires
            self.wf(),
        ensures
            (r is None) <==> (forall|i: int|
                0 <= i < self.mmio@.len()
                    ==> !(#[trigger] self.mmio@[i]).region.spec_contains_region(
                        addr as int,
                        size as int,
                    )),
            r matches Some(found) ==> exists|i: int|
                0 <= i < self.mmio@.len()
                    && (#[trigger] self.mmio@[i]) == (MMIOConfig {
                        region: found.0,
                        handler: found.1,
                        arg: found.2,
                    })
                    && found.0.spec_contains_region(addr as int, size as int)
                    && (forall|j: int| 0 <= j < i
                        ==> !(#[trigger] self.mmio@[j]).region.spec_contains_region(
                            addr as int,
                            size as int,
                        )),
    {
        let n: usize = self.mmio.len();
        let mut i: usize = 0;
        while i < n
            invariant
                n == self.mmio@.len(),
                i <= n,
                self.wf(),
                forall|j: int| 0 <= j < i
                    ==> !(#[trigger] self.mmio@[j]).region.spec_contains_region(
                        addr as int,
                        size as int,
                    ),
            decreases n - i,
        {
            let cfg = &self.mmio[i];
            if cfg.region.contains_region(addr, size) {
                return Some((cfg.region, cfg.handler, cfg.arg));
            }
            i = i + 1;
        }
        None
    }

    /// Insert a memory region into the cell: a page-multiple region goes
    /// into the stage-2 table, any other region becomes a sub-page MMIO
    /// trap. Fails (`Overlap` or `DuplicateMmio`), changing nothing, exactly
    /// when the respective table rejects it.
    pub fn mem_region_insert(&mut self, mem: MemoryRegion) -> (res: HvResult)
        requires
            old(self).wf(),
            mem.wf(),
        ensures
            final(self).wf(),
            spec_eq_except_memory(*final(self), *old(self)),
            (res is Ok) <==> spec_insert_ok(
                old(self).spec_gpm().spec_regions(),
                old(self).mmio@,
                mem,
            ),
            res is Ok ==> final(self).spec_gpm().spec_regions() == spec_insert_gpm(
                old(self).spec_gpm().spec_regions(),
                mem,
            ) && final(self).mmio@ == spec_insert_mmio(old(self).mmio@, mem),
            res is Err ==> final(self).spec_gpm() == old(self).spec_gpm()
                && final(self).mmio@ == old(self).mmio@
                && res == Err::<(), HvError>(spec_insert_err(mem)),
    {
        if is_aligned(mem.size) {
            self.gpm.insert(mem)
        } else {
            self.mmio_region_register(mem.start, mem.size, MMIOHandler::Subpage, mem.phys_start)
        }
    }

    /// Map a region, splitting on page alignment exactly as `mem_region_insert`.
    pub fn mem_region_map_partial(&mut self, mem: &MemoryRegion) -> (res: HvResult)
        requires
            old(self).wf(),
            mem.wf(),
        ensures
            final(self).wf(),
            spec_eq_except_memory(*final(self), *old(self)),
            (res is Ok) <==> spec_insert_ok(
                old(self).spec_gpm().spec_regions(),
                old(self).mmio@,
                *mem,
            ),
            res is Ok ==> final(self).spec_gpm().spec_regions() == spec_insert_gpm(
                old(self).spec_gpm().spec_regions(),
                *mem,
            ) && final(self).mmio@ == spec_insert_mmio(old(self).mmio@, *mem),
            res is Err ==> final(self).spec_gpm() == old(self).spec_gpm()
                && final(self).mmio@ == old(self).mmio@
                && res == Err::<(), HvError>(spec_insert_err(*mem)),
    {
        if is_aligned(mem.size) {
            self.gpm.map_partial(mem)
        } else {
            self.mmio_region_register(mem.start, mem.size, MMIOHandler::Subpage, mem.phys_start)
        }
    }

    /// Unmap a region: a page-multiple region is removed from the stage-2
    /// table (`NotFound` when it was not mapped); a sub-page region's MMIO
    /// trap is unregistered, a miss being ignored as registration is the
    /// authoritative record.
    pub fn mem_region_unmap_partial(&mut self, mem: &MemoryRegion) -> (res: HvResult)
        requires
            old(self).wf(),
        ensures
            final(self).wf(),
            spec_eq_except_memory(*final(self), *old(self)),
            spec_is_aligned(mem.size) ==> {
                &&& final(self).mmio@ == old(self).mmio@
                &&& ((res is Ok) <==> (exists|i: int|
                    0 <= i < old(self).spec_gpm().spec_regions().len()
                        && (#[trigger] old(self).spec_gpm().spec_regions()[i]).start == mem.start
                        && old(self).spec_gpm().spec_regions()[i].size == mem.size))
                &&& (res is Ok ==> exists|i: int|
                    0 <= i < old(self).spec_gpm().spec_regions().len()
                        && (#[trigger] old(self).spec_gpm().spec_regions()[i]).start == mem.start
                        && old(self).spec_gpm().spec_regions()[i].size == mem.size
                        && final(self).spec_gpm().spec_regions()
                            == old(self).spec_gpm().spec_regions().remove(i))
                &&& (res is Err ==> final(self).spec_gpm() == old(self).spec_gpm()
                    && res == Err::<(), HvError>(HvError::NotFound))
            },
            !spec_is_aligned(mem.size) ==> {
                &&& res is Ok
                &&& final(self).spec_gpm() == old(self).spec_gpm()
                &&& ((exists|i: int|
                    0 <= i < old(self).mmio@.len()
                        && (#[trigger] old(self).mmio@[i]).region.start == mem.start)
                    ==> exists|i: int|
                        0 <= i < old(self).mmio@.len()
                            && (#[trigger] old(self).mmio@[i]).region.start == mem.start
                            && final(self).mmio@ == old(self).mmio@.remove(i))
                &&& ((forall|i: int|
                    0 <= i < old(self).mmio@.len()
                        ==> (#[trigger] old(self).mmio@[i]).region.start != mem.start)
                    ==> final(self).mmio@ == old(self).mmio@)
            },
    {
        if is_aligned(mem.size) {
            self.gpm.unmap_partial(mem)
        } else {
            self.mmio_region_unregister(mem.start);
            Ok(())
        }
    }
}

/// The pass-through window registered beside the GIC handlers.
pub const GENERIC_MMIO_BASE: u64 = 0x8080000;

pub const GENERIC_MMIO_SIZE: u64 = 0x20000;

/// No two entries of an MMIO table share a start address.
pub open spec fn spec_starts_unique(s: Seq<MMIOConfig>) -> bool {
    forall|i: int, j: int|
        0 <= i < j < s.len()
            ==> (#[trigger] s[i]).region.start != (#[trigger] s[j]).region.start
}

/// The distributor trap of a cell.
pub open spec fn spec_gicd_cfg(sys: HvSystemConfig) -> MMIOConfig {
    MMIOConfig {
        region: MMIORegion { start: sys.platform_info.arch.gicd_base, size: GICD_SIZE },
        handler: MMIOHandler::Gicv3Gicd,
        arg: 0,
    }
}

/// The redistributor trap for CPU `cpu`.
pub open spec fn spec_gicr_cfg(cpus: PerCpuList, cpu: int) -> MMIOConfig {
    MMIOConfig {
        region: MMIORegion { start: cpus.cpus@[cpu].gicr_base, size: GICR_SIZE },
        handler: MMIOHandler::Gicv3Gicr,
        arg: cpu as u64,
    }
}

/// CPU `cpu` gets a redistributor trap: it is in the root configuration's
/// CPU set and declares a nonzero redistributor base.
pub open spec fn spec_gicr_applies(sys: HvSystemConfig, cpus: PerCpuList, cpu: int) -> bool {
    &&& cpu_bit(sys.root_cell.cpu_set, cpu)
    &&& 0 <= cpu < cpus.spec_len()
    &&& cpus.cpus@[cpu].gicr_base != 0
}

/// The redistributor traps of the CPUs below `n`, in CPU order.
pub open spec fn spec_gicr_cfgs(sys: HvSystemConfig, cpus: PerCpuList, n: int) -> Seq<MMIOConfig>
    decreases n,
{
    if n <= 0 {
        Seq::empty()
    } else if spec_gicr_applies(sys, cpus, n - 1) {
        spec_gicr_cfgs(sys, cpus, n - 1).push(spec_gicr_cfg(cpus, n - 1))
    } else {
        spec_gicr_cfgs(sys, cpus, n - 1)
    }
}

/// How many CPUs below `n` get a redistributor trap.
pub open spec fn spec_gicr_count(sys: HvSystemConfig, cpus: PerCpuList, n: int) -> int
    decreases n,
{
    if n <= 0 {
        0
    } else {
        spec_gicr_count(sys, cpus, n - 1) + if spec_gicr_applies(sys, cpus, n - 1) {
            1int
        } else {
            0int
        }
    }
}

/// The generic pass-through trap.
pub open spec fn spec_generic_cfg() -> MMIOConfig {
    MMIOConfig {
        region: MMIORegion { start: GENERIC_MMIO_BASE, size: GENERIC_MMIO_SIZE },
        handler: MMIOHandler::Generic,
        arg: GENERIC_MMIO_BASE,
    }
}

/// All handlers a fresh cell registers: the distributor, one redistributor
/// per eligible CPU, and the generic window, in registration order.
pub open spec fn spec_handler_cfgs(sys: HvSystemConfig, cpus: PerCpuList) -> Seq<MMIOConfig> {
    seq![spec_gicd_cfg(sys)] + spec_gicr_cfgs(sys, cpus, 64) + seq![spec_generic_cfg()]
}

/// The handler prefix before the generic window.
pub open spec fn spec_handler_prefix(
    base: Seq<MMIOConfig>,
    sys: HvSystemConfig,
    cpus: PerCpuList,
) -> Seq<MMIOConfig> {
    base + seq![spec_gicd_cfg(sys)] + spec_gicr_cfgs(sys, cpus, 64)
}

/// At least one redistributor was found, or its index is already recorded.
pub open spec fn spec_gicr_counted_ok(
    sys: HvSystemConfig,
    cpus: PerCpuList,
    last_gicr: Option<u64>,
) -> bool {
    last_gicr is Some || spec_gicr_count(sys, cpus, 64) >= 1
}

/// Handler registration succeeds on a table `base` exactly when no start
/// address repeats and the redistributor count is usable.
pub open spec fn spec_handlers_ok(
    base: Seq<MMIOConfig>,
    sys: HvSystemConfig,
    cpus: PerCpuList,
    last_gicr: Option<u64>,
) -> bool {
    &&& spec_starts_unique(base + spec_handler_cfgs(sys, cpus))
    &&& spec_gicr_counted_ok(sys, cpus, last_gicr)
}

/// The recorded last-redistributor index after handler registration,
/// whether or not registration succeeded as a whole.
pub open spec fn spec_last_gicr_after(
    base: Seq<MMIOConfig>,
    sys: HvSystemConfig,
    cpus: PerCpuList,
    old_last: Option<u64>,
) -> Option<u64> {
    if !spec_starts_unique(spec_handler_prefix(base, sys, cpus)) {
        old_last
    } else if !spec_gicr_counted_ok(sys, cpus, old_last) {
        old_last
    } else if old_last is Some {
        old_last
    } else {
        Some((spec_gicr_count(sys, cpus, 64) - 1) as u64)
    }
}

/// The cfg sequence for `m` CPUs is a prefix of the one for `n >= m` CPUs.
pub proof fn lemma_gicr_cfgs_prefix(sys: HvSystemConfig, cpus: PerCpuList, m: int, n: int)
    requires
        0 <= m <= n,
    ensures
        spec_gicr_cfgs(sys, cpus, m).len() == spec_gicr_count(sys, cpus, m),
        spec_gicr_cfgs(sys, cpus, n).len() >= spec_gicr_cfgs(sys, cpus, m).len(),
        forall|k: int|
            0 <= k < spec_gicr_cfgs(sys, cpus, m).len()
                ==> spec_gicr_cfgs(sys, cpus, n)[k] == spec_gicr_cfgs(sys, cpus, m)[k],
    decreases n,
{
    if n > m {
        lemma_gicr_cfgs_prefix(sys, cpus, m, n - 1);
    } else {
        lemma_gicr_count_len(sys, cpus, m);
    }
}

/// The cfg sequence has exactly one entry per counted CPU.
pub proof fn lemma_gicr_count_len(sys: HvSystemConfig, cpus: PerCpuList, n: int)
    ensures
        spec_gicr_cfgs(sys, cpus, n).len() == if n >= 0 {
            spec_gicr_count(sys, cpus, n)
        } else {
            0
        },
        spec_gicr_count(sys, cpus, n) >= 0,
        n >= 0 ==> spec_gicr_count(sys, cpus, n) <= n,
    decreases n,
{
    if n > 0 {
        lemma_gicr_count_len(sys, cpus, n - 1);
    }
}

/// OR of pin word `k` over the first `n` declared interrupt chips.
pub open spec fn spec_claimed_word(chips: Seq<HvIrqChip>, k: int, n: int) -> u32
    decreases n,
{
    if n <= 0 {
        0u32
    } else {
        spec_claimed_word(chips, k, n - 1) | chips[n - 1].pin_bitmap[k]
    }
}

/// The word `w` of a cell's initial interrupt bitmap: words 1..=4 gather the
/// declared pin bitmaps, every other word is clear.
pub open spec fn spec_initial_word(config: CellConfig, w: int) -> u32 {
    if 1 <= w < 5 {
        spec_claimed_word(config.irq_chips@, w - 1, config.irq_chips@.len() as int)
    } else {
        0u32
    }
}

/// Bitwise OR is associative.
pub proof fn lemma_or_assoc(a: u32, b: u32, c: u32)
    by (bit_vector)
    ensures
        (a | b) | c == a | (b | c),
{
}

/// Zero is the identity of bitwise OR.
pub proof fn lemma_or_zero()
    by (bit_vector)
    ensures
        forall|a: u32| #[trigger] (a | 0u32) == a,
        forall|a: u32| #[trigger] (0u32 | a) == a,
{
}

/// The live cells: an optional distinguished root plus the other cells.
#[derive(Debug)]
pub struct CellRegistry {
    pub root: Option<Cell>,
    pub cells: Vec<Cell>,
}

impl CellRegistry {
    pub open spec fn spec_has_root(self) -> bool {
        self.root is Some
    }

    pub open spec fn spec_root(self) -> Cell {
        self.root->0
    }
}

impl Cell {
    /// Drop from this cell's ownership every interrupt that `irq_bitmap`
    /// claims.
    pub fn remove_irqs(&mut self, irq_bitmap: &IrqBitmap)
        requires
            old(self).irq_bitmap.wf(),
            irq_bitmap.wf(),
        ensures
            spec_eq_except_irq(*final(self), *old(self)),
            final(self).irq_bitmap.wf(),
            forall|i: int| 0 <= i < 32
                ==> final(self).irq_bitmap.word(i)
                    == old(self).irq_bitmap.word(i) & !irq_bitmap.word(i),
            diff_semantics(final(self).irq_bitmap, old(self).irq_bitmap, *irq_bitmap),
    {
        self.irq_bitmap.diff(irq_bitmap);
    }

    /// Gather the interrupt ownership declared by the configuration: OR
    /// every chip's pin bitmap into words 1..=4 of the cell bitmap.
    pub fn init_irq_bitmap(&mut self)
        requires
            old(self).irq_bitmap.wf(),
        ensures
            spec_eq_except_irq(*final(self), *old(self)),
            final(self).irq_bitmap.wf(),
            forall|w: int| 0 <= w < 32
                ==> final(self).irq_bitmap.word(w) == if 1 <= w < 5 {
                    old(self).irq_bitmap.word(w) | spec_claimed_word(
                        old(self).config.irq_chips@,
                        w - 1,
                        old(self).config.irq_chips@.len() as int,
                    )
                } else {
                    old(self).irq_bitmap.word(w)
                },
    {
        proof {
            lemma_or_zero();
        }
        let ghost chips = self.config.irq_chips@;
        let n: usize = self.config.irq_chips.len();
        let mut j: usize = 0;
        while j < n
            invariant
                n == self.config.irq_chips@.len(),
                j <= n,
                self.config == old(self).config,
                chips == self.config.irq_chips@,
                spec_eq_except_irq(*self, *old(self)),
                self.irq_bitmap.wf(),
                forall|w: int| 0 <= w < 32
                    ==> self.irq_bitmap.word(w) == if 1 <= w < 5 {
                        old(self).irq_bitmap.word(w) | spec_claimed_word(chips, w - 1, j as int)
                    } else {
                        old(self).irq_bitmap.word(w)
                    },
            decreases n - j,
        {
            let chip = self.config.irq_chips[j];
            let ghost mid = self.irq_bitmap;
            let mut k: usize = 0;
            while k < 4
                invariant
                    k <= 4,
                    n == self.config.irq_chips@.len(),
                    j < n,
                    chips == self.config.irq_chips@,
                    chip == chips[j as int],
                    self.config == old(self).config,
                    spec_eq_except_irq(*self, *old(self)),
                    self.irq_bitmap.wf(),
                    forall|w: int| 0 <= w < 32
                        ==> self.irq_bitmap.word(w) == if 1 <= w < 1 + k {
                            mid.word(w) | chip.pin_bitmap[w - 1]
                        } else {
                            mid.word(w)
                        },
                    forall|w: int| 0 <= w < 32
                        ==> mid.word(w) == if 1 <= w < 5 {
                            old(self).irq_bitmap.word(w) | spec_claimed_word(chips, w - 1, j as int)
                        } else {
                            old(self).irq_bitmap.word(w)
                        },
                decreases 4 - k,
            {
                self.irq_bitmap.or_word(1 + k, chip.pin_bitmap[k]);
                k = k + 1;
            }
            proof {
                assert forall|w: int| 0 <= w < 32
                    implies self.irq_bitmap.word(w) == (if 1 <= w < 5 {
                        old(self).irq_bitmap.word(w) | spec_claimed_word(chips, w - 1, (j + 1) as int)
                    } else {
                        old(self).irq_bitmap.word(w)
                    }) by {
                    if 1 <= w < 5 {
                        let a = old(self).irq_bitmap.word(w);
                        let b = spec_claimed_word(chips, w - 1, j as int);
                        let c = chip.pin_bitmap[w - 1];
                        assert(spec_claimed_word(chips, w - 1, (j + 1) as int) == b | c);
                        assert(self.irq_bitmap.word(w) == (a | b) | c);
                        lemma_or_assoc(a, b, c);
                    }
                }
            }
            j = j + 1;
        }
    }

    /// Register the fixed GICv3 traps of a fresh cell: the distributor, one
    /// redistributor per root-set CPU that declares one, and the generic
    /// pass-through window; record the last redistributor index once.
    /// Fails with `DuplicateMmio` on a start-address collision and with
    /// `NoRedistributor` when no CPU declares a redistributor base and none
    /// was recorded before.
    pub fn register_gicv3_mmio_handlers(
        &mut self,
        sys: &HvSystemConfig,
        cpus: &PerCpuList,
        gic: &mut GicState,
    ) -> (res: HvResult)
        requires
            old(self).wf(),
            forall|id: int| cpu_bit(sys.root_cell.cpu_set, id) ==> id < cpus.spec_len(),
            sys.platform_info.arch.gicd_base + GICD_SIZE <= u64::MAX,
            forall|i: int| 0 <= i < cpus.spec_len()
                ==> (#[trigger] cpus.cpus@[i]).gicr_base + GICR_SIZE <= u64::MAX,
        ensures
            final(self).wf(),
            spec_eq_except_mmio(*final(self), *old(self)),
            final(gic).irouter@ == old(gic).irouter@,
            final(gic).enabled@ == old(gic).enabled@,
            final(gic).active@ == old(gic).active@,
            final(gic).sgi_writes@ == old(gic).sgi_writes@,
            final(gic).last_gicr == spec_last_gicr_after(
                old(self).mmio@,
                *sys,
                *cpus,
                old(gic).last_gicr,
            ),
            (res is Ok) <==> spec_handlers_ok(old(self).mmio@, *sys, *cpus, old(gic).last_gicr),
            res is Ok ==> final(self).mmio@ == old(self).mmio@ + spec_handler_cfgs(*sys, *cpus),
            (res == Err::<(), HvError>(HvError::NoRedistributor)) <==> (spec_starts_unique(
                spec_handler_prefix(old(self).mmio@, *sys, *cpus),
            ) && !spec_gicr_counted_ok(*sys, *cpus, old(gic).last_gicr)),
            (res == Err::<(), HvError>(HvError::DuplicateMmio)) <==> (!spec_starts_unique(
                old(self).mmio@ + spec_handler_cfgs(*sys, *cpus),
            ) && (spec_starts_unique(spec_handler_prefix(old(self).mmio@, *sys, *cpus))
                ==> spec_gicr_counted_ok(*sys, *cpus, old(gic).last_gicr))),
    {
        let ghost base = self.mmio@;
        let ghost full = base + spec_handler_cfgs(*sys, *cpus);
        let ghost prefix = spec_handler_prefix(base, *sys, *cpus);
        proof {
            lemma_gicr_cfgs_prefix(*sys, *cpus, 64, 64);
            lemma_gicr_count_len(*sys, *cpus, 64);
        }

        // Distributor trap.
        let gicd_base = sys.platform_info.arch.gicd_base;
        let r0 = self.mmio_region_register(gicd_base, GICD_SIZE, MMIOHandler::Gicv3Gicd, 0);
        if r0.is_err() {
            proof {
                let k = choose|k: int| 0 <= k < base.len() && base[k].region.start == gicd_base;
                assert(full[k] == base[k]);
                assert(full[base.len() as int] == spec_gicd_cfg(*sys));
                assert(!spec_starts_unique(full));
                assert(prefix[k] == base[k]);
                assert(prefix[base.len() as int] == spec_gicd_cfg(*sys));
                assert(!spec_starts_unique(prefix));
            }
            return Err(HvError::DuplicateMmio);
        }

        // One redistributor trap per eligible CPU.
        let mut last_gicr: u64 = 0;
        let mut cpu: u64 = 0;
        while cpu < 64
            invariant
                cpu <= 64,
                self.wf(),
                spec_eq_except_mmio(*self, *old(self)),
                base == old(self).mmio@,
                full == base + spec_handler_cfgs(*sys, *cpus),
                prefix == spec_handler_prefix(base, *sys, *cpus),
                self.mmio@ == base + seq![spec_gicd_cfg(*sys)]
                    + spec_gicr_cfgs(*sys, *cpus, cpu as int),
                last_gicr == spec_gicr_count(*sys, *cpus, cpu as int),
                *gic == *old(gic),
                forall|id: int| cpu_bit(sys.root_cell.cpu_set, id) ==> id < cpus.spec_len(),
                forall|i: int| 0 <= i < cpus.spec_len()
                    ==> (#[trigger] cpus.cpus@[i]).gicr_base + GICR_SIZE <= u64::MAX,
            decreases 64 - cpu,
        {
            proof {
                lemma_gicr_count_len(*sys, *cpus, cpu as int);
                lemma_gicr_cfgs_prefix(*sys, *cpus, cpu as int, 64);
                lemma_gicr_cfgs_prefix(*sys, *cpus, cpu as int + 1, 64);
            }
            let in_set = {
                let b: u64 = sys.root_cell.cpu_set;
                (b >> cpu) & 1 == 1
            };
            if in_set {
                proof {
                    assert(cpu_bit(sys.root_cell.cpu_set, cpu as int));
                }
                let gicr_base = cpus.get_cpu_data(cpu).gicr_base;
                if gicr_base != 0 {
                    proof {
                        lemma_gicr_count_len(*sys, *cpus, cpu as int);
                    }
                    last_gicr = last_gicr + 1;
                    let r1 = self.mmio_region_register(
                        gicr_base,
                        GICR_SIZE,
                        MMIOHandler::Gicv3Gicr,
                        cpu,
                    );
                    if r1.is_err() {
                        proof {
                            let cur = base + seq![spec_gicd_cfg(*sys)]
                                + spec_gicr_cfgs(*sys, *cpus, cpu as int);
                            let k = choose|k: int|
                                0 <= k < cur.len() && cur[k].region.start == gicr_base;
                            let pos = cur.len() as int;
                            assert(spec_gicr_cfgs(*sys, *cpus, cpu as int + 1)
                                == spec_gicr_cfgs(*sys, *cpus, cpu as int).push(
                                spec_gicr_cfg(*cpus, cpu as int),
                            ));
                            assert(prefix.len() >= pos + 1);
                            assert forall|t: int| 0 <= t < pos implies prefix[t] == cur[t] by {}
                            assert(prefix[pos] == spec_gicr_cfg(*cpus, cpu as int));
                            assert(prefix[k].region.start == prefix[pos].region.start);
                            assert(!spec_starts_unique(prefix));
                            assert forall|t: int| 0 <= t < prefix.len() implies full[t]
                                == prefix[t] by {}
                            assert(!spec_starts_unique(full));
                        }
                        return Err(HvError::DuplicateMmio);
                    }
                }
            }
            cpu = cpu + 1;
        }

        proof {
            assert(self.mmio@ == prefix);
            assert(last_gicr == spec_gicr_count(*sys, *cpus, 64));
        }

        // Record the index of the last redistributor, once.
        if gic.last_gicr.is_none() {
            if last_gicr == 0 {
                proof {
                    assert(spec_starts_unique(prefix));
                }
                return Err(HvError::NoRedistributor);
            }
            gic.last_gicr = Some(last_gicr - 1);
        }

        // Generic pass-through window.
        let r2 = self.mmio_region_register(
            GENERIC_MMIO_BASE,
            GENERIC_MMIO_SIZE,
            MMIOHandler::Generic,
            GENERIC_MMIO_BASE,
        );
        if r2.is_err() {
            proof {
                let k = choose|k: int|
                    0 <= k < prefix.len() && prefix[k].region.start == GENERIC_MMIO_BASE;
                assert(full[k] == prefix[k]);
                assert(full[prefix.len() as int] == spec_generic_cfg());
                assert(!spec_starts_unique(full));
            }
            return Err(HvError::DuplicateMmio);
        }
        proof {
            assert(self.mmio@ =~= full);
            assert(spec_starts_unique(full));
        }
        Ok(())
    }

    /// Build a cell from its configuration. The descriptor must fit one page
    /// (`InvalidConfig` otherwise); handler registration must succeed; and a
    /// non-root cell's claimed interrupts are subtracted from the root
    /// cell's bitmap, enforcing single ownership at creation.
    pub fn new(
        config: CellConfig,
        sys: &HvSystemConfig,
        cpus: &PerCpuList,
        registry: &mut CellRegistry,
        gic: &mut GicState,
        is_root_cell: bool,
    ) -> (res: Result<Cell, HvError>)
        requires
            config.wf(),
            forall|id: int| cpu_bit(sys.root_cell.cpu_set, id) ==> id < cpus.spec_len(),
            sys.platform_info.arch.gicd_base + GICD_SIZE <= u64::MAX,
            forall|i: int| 0 <= i < cpus.spec_len()
                ==> (#[trigger] cpus.cpus@[i]).gicr_base + GICR_SIZE <= u64::MAX,
            !is_root_cell ==> old(registry).spec_has_root()
                && old(registry).spec_root().irq_bitmap.wf(),
        ensures
            final(gic).irouter@ == old(gic).irouter@,
            final(gic).enabled@ == old(gic).enabled@,
            final(gic).active@ == old(gic).active@,
            final(gic).sgi_writes@ == old(gic).sgi_writes@,
            (res is Ok) <==> (spec_npages(config.total_size) == 1 && spec_handlers_ok(
                Seq::empty(),
                *sys,
                *cpus,
                old(gic).last_gicr,
            )),
            spec_npages(config.total_size) != 1 ==> res == Err::<Cell, HvError>(
                HvError::InvalidConfig,
            ) && *final(gic) == *old(gic),
            res matches Ok(cell) ==> {
                &&& cell.wf()
                &&& cell.config == config
                &&& cell.cpu_set.bitmap == config.cpu_set
                &&& cell.spec_gpm().spec_regions() == Seq::<MemoryRegion>::empty()
                &&& cell.mmio@ == spec_handler_cfgs(*sys, *cpus)
                &&& cell.loadable == false
                &&& cell.comm_page.comm_region == spec_comm_region_zero()
                &&& forall|w: int| 0 <= w < 32
                    ==> cell.irq_bitmap.word(w) == spec_initial_word(config, w)
            },
            spec_npages(config.total_size) == 1 ==> final(gic).last_gicr
                == spec_last_gicr_after(Seq::empty(), *sys, *cpus, old(gic).last_gicr),
            spec_npages(config.total_size) == 1 ==> ((res == Err::<Cell, HvError>(
                HvError::NoRedistributor,
            )) <==> (spec_starts_unique(spec_handler_prefix(Seq::empty(), *sys, *cpus))
                && !spec_gicr_counted_ok(*sys, *cpus, old(gic).last_gicr))),
            spec_npages(config.total_size) == 1 ==> ((res == Err::<Cell, HvError>(
                HvError::DuplicateMmio,
            )) <==> (!spec_starts_unique(Seq::empty() + spec_handler_cfgs(*sys, *cpus)) && (
            spec_starts_unique(spec_handler_prefix(Seq::empty(), *sys, *cpus))
                ==> spec_gicr_counted_ok(*sys, *cpus, old(gic).last_gicr)))),
            is_root_cell ==> *final(registry) == *old(registry),
            res is Err ==> *final(registry) == *old(registry),
            (!is_root_cell && res is Ok) ==> {
                &&& final(registry).cells@ == old(registry).cells@
                &&& final(registry).spec_has_root()
                &&& spec_eq_except_irq(final(registry).spec_root(), old(registry).spec_root())
                &&& final(registry).spec_root().irq_bitmap.wf()
                &&& (res matches Ok(cell) ==> diff_semantics(
                    final(registry).spec_root().irq_bitmap,
                    old(registry).spec_root().irq_bitmap,
                    cell.irq_bitmap,
                ))
            },
    {
        if npages(config.total_size) != 1 {
            return Err(HvError::InvalidConfig);
        }
        let mut cell = Cell {
            comm_page: CommPage::new(),
            cpu_set: CpuSet::from_bitmap(config.cpu_set),
            gpm: MemorySet::new(),
            mmio: Vec::new(),
            irq_bitmap: IrqBitmap::new(),
            loadable: false,
            config,
        };
        match cell.register_gicv3_mmio_handlers(sys, cpus, gic) {
            Ok(_) => {}
            Err(e) => {
                return Err(e);
            }
        }
        cell.init_irq_bitmap();
        if !is_root_cell {
            match &mut registry.root {
                Some(root) => {
                    root.remove_irqs(&cell.irq_bitmap);
                }
                None => {
                    proof {
                        assert(false);
                    }
                }
            }
        }
        proof {
            lemma_or_zero();
            assert(cell.mmio@ =~= spec_handler_cfgs(*sys, *cpus));
            assert(cell.spec_gpm().spec_regions() =~= Seq::<MemoryRegion>::empty());
            assert forall|w: int| 0 <= w < 32
                implies cell.irq_bitmap.word(w) == spec_initial_word(config, w) by {
                if 1 <= w < 5 {
                    assert(cell.irq_bitmap.word(w) == 0u32 | spec_initial_word(config, w));
                }
            }
        }
        Ok(cell)
    }
}


/// The route value an adjustment leaves for a cell: kept when its encoded
/// destination is already one of the cell's CPUs, else rewritten to the
/// MPIDR of the cell's first CPU.
pub open spec fn spec_adjusted_route(cell: Cell, cpus: PerCpuList, v: u64) -> u64 {
    if cell.cpu_set.spec_contains(spec_mpidr_to_cpuid(v) as int) {
        v
    } else {
        cpus.cpus@[spec_first_cpu_of(cell.cpu_set)].mpidr
    }
}

/// The route of interrupt `n` after a configuration commit: adjusted for
/// the subject cell if it owns `n`, then for the root cell if it owns `n`.
pub open spec fn spec_commit_route(cell: Cell, root: Cell, cpus: PerCpuList, n: int, v: u64) -> u64 {
    let v1 = if cell.irq_bitmap.spec_has(n) {
        spec_adjusted_route(cell, cpus, v)
    } else {
        v
    };
    if root.irq_bitmap.spec_has(n) {
        spec_adjusted_route(root, cpus, v1)
    } else {
        v1
    }
}

/// One chip's pin words `k..4` OR-ed into the bitmap words at its pin base.
pub open spec fn spec_apply_or_chip(w: Seq<u32>, chip: HvIrqChip, k: int) -> Seq<u32>
    decreases 4 - k,
{
    if k < 0 || k >= 4 {
        w
    } else {
        spec_apply_or_chip(
            w.update(chip.spec_word_index(k), w[chip.spec_word_index(k)] | chip.pin_bitmap[k]),
            chip,
            k + 1,
        )
    }
}

/// One chip's pin words `k..4` AND-ed over the bitmap words at its pin base.
pub open spec fn spec_apply_and_chip(w: Seq<u32>, chip: HvIrqChip, k: int) -> Seq<u32>
    decreases 4 - k,
{
    if k < 0 || k >= 4 {
        w
    } else {
        spec_apply_and_chip(
            w.update(chip.spec_word_index(k), w[chip.spec_word_index(k)] & chip.pin_bitmap[k]),
            chip,
            k + 1,
        )
    }
}

/// The first `n` chips that sit on the distributor, OR-ed into `w` in order.
pub open spec fn spec_or_chips(w: Seq<u32>, chips: Seq<HvIrqChip>, gicd: u64, n: int) -> Seq<u32>
    decreases n,
{
    if n <= 0 {
        w
    } else {
        let prev = spec_or_chips(w, chips, gicd, n - 1);
        if chips[n - 1].address == gicd {
            spec_apply_or_chip(prev, chips[n - 1], 0)
        } else {
            prev
        }
    }
}

/// The first `n` chips that sit on the distributor, AND-ed over `w` in order.
pub open spec fn spec_and_chips(w: Seq<u32>, chips: Seq<HvIrqChip>, gicd: u64, n: int) -> Seq<u32>
    decreases n,
{
    if n <= 0 {
        w
    } else {
        let prev = spec_and_chips(w, chips, gicd, n - 1);
        if chips[n - 1].address == gicd {
            spec_apply_and_chip(prev, chips[n - 1], 0)
        } else {
            prev
        }
    }
}

/// Pointwise meaning of OR-ing one chip into a 32-word bitmap.
pub proof fn lemma_apply_or_chip(w: Seq<u32>, chip: HvIrqChip)
    requires
        w.len() == 32,
        chip.wf(),
    ensures
        spec_apply_or_chip(w, chip, 0).len() == 32,
        forall|x: int| 0 <= x < 32
            ==> spec_apply_or_chip(w, chip, 0)[x] == if chip.pin_base / 32 <= x < chip.pin_base
                / 32 + 4 {
                w[x] | chip.pin_bitmap[x - chip.pin_base / 32]
            } else {
                w[x]
            },
{
    let p = chip.pin_base as int / 32;
    let s0 = w;
    let s1 = s0.update(p, s0[p] | chip.pin_bitmap[0]);
    let s2 = s1.update(p + 1, s1[p + 1] | chip.pin_bitmap[1]);
    let s3 = s2.update(p + 2, s2[p + 2] | chip.pin_bitmap[2]);
    let s4 = s3.update(p + 3, s3[p + 3] | chip.pin_bitmap[3]);
    assert(spec_apply_or_chip(w, chip, 0) == spec_apply_or_chip(s1, chip, 1));
    assert(spec_apply_or_chip(s1, chip, 1) == spec_apply_or_chip(s2, chip, 2));
    assert(spec_apply_or_chip(s2, chip, 2) == spec_apply_or_chip(s3, chip, 3));
    assert(spec_apply_or_chip(s3, chip, 3) == spec_apply_or_chip(s4, chip, 4));
    assert(spec_apply_or_chip(s4, chip, 4) == s4);
}

/// Pointwise meaning of AND-ing one chip over a 32-word bitmap.
pub proof fn lemma_apply_and_chip(w: Seq<u32>, chip: HvIrqChip)
    requires
        w.len() == 32,
        chip.wf(),
    ensures
        spec_apply_and_chip(w, chip, 0).len() == 32,
        forall|x: int| 0 <= x < 32
            ==> spec_apply_and_chip(w, chip, 0)[x] == if chip.pin_base / 32 <= x < chip.pin_base
                / 32 + 4 {
                w[x] & chip.pin_bitmap[x - chip.pin_base / 32]
            } else {
                w[x]
            },
{
    let p = chip.pin_base as int / 32;
    let s0 = w;
    let s1 = s0.update(p, s0[p] & chip.pin_bitmap[0]);
    let s2 = s1.update(p + 1, s1[p + 1] & chip.pin_bitmap[1]);
    let s3 = s2.update(p + 2, s2[p + 2] & chip.pin_bitmap[2]);
    let s4 = s3.update(p + 3, s3[p + 3] & chip.pin_bitmap[3]);
    assert(spec_apply_and_chip(w, chip, 0) == spec_apply_and_chip(s1, chip, 1));
    assert(spec_apply_and_chip(s1, chip, 1) == spec_apply_and_chip(s2, chip, 2));
    assert(spec_apply_and_chip(s2, chip, 2) == spec_apply_and_chip(s3, chip, 3));
    assert(spec_apply_and_chip(s3, chip, 3) == spec_apply_and_chip(s4, chip, 4));
    assert(spec_apply_and_chip(s4, chip, 4) == s4);
}

impl Cell {
    /// If the physical routing register of `irq_id` points outside this
    /// cell's CPU set, rewrite it to the cell's first CPU, so physical
    /// routing never diverges from logical ownership.
    pub fn gicv3_adjust_irq_target(&self, irq_id: u32, gic: &mut GicState, cpus: &PerCpuList)
        requires
            irq_id < 1024,
            old(gic).wf(),
            self.cpu_set.spec_nonempty(),
            forall|id: int| self.cpu_set.spec_contains(id) ==> id < cpus.spec_len(),
        ensures
            final(gic).wf(),
            final(gic).irouter@[irq_id as int] == spec_adjusted_route(
                *self,
                *cpus,
                old(gic).irouter@[irq_id as int],
            ),
            forall|m: int| 0 <= m < 1024 && m != irq_id
                ==> final(gic).irouter@[m] == old(gic).irouter@[m],
            final(gic).enabled@ == old(gic).enabled@,
            final(gic).active@ == old(gic).active@,
            final(gic).sgi_writes@ == old(gic).sgi_writes@,
            final(gic).last_gicr == old(gic).last_gicr,
    {
        let route_val = gic.read_irouter(irq_id as u64);
        let route = mpidr_to_cpuid(route_val);
        if !self.owns_cpu(route) {
            let first: u64 = match self.cpu_set.first_cpu() {
                Some(c) => c,
                None => {
                    proof {
                        let w = choose|id: int| self.cpu_set.spec_contains(id);
                        assert(false);
                    }
                    0
                }
            };
            let mpidr = cpus.get_cpu_data(first).mpidr;
            gic.write_irouter(irq_id as u64, mpidr);
        }
    }

    /// Re-align physical interrupt routing with logical ownership for every
    /// shared interrupt (32..1023) owned by this cell or by the root cell.
    pub fn gicv3_config_commit(&self, root: &Cell, gic: &mut GicState, cpus: &PerCpuList)
        requires
            self.wf(),
            root.wf(),
            old(gic).wf(),
            self.cpu_set.spec_nonempty(),
            root.cpu_set.spec_nonempty(),
            forall|id: int| self.cpu_set.spec_contains(id) ==> id < cpus.spec_len(),
            forall|id: int| root.cpu_set.spec_contains(id) ==> id < cpus.spec_len(),
        ensures
            final(gic).wf(),
            forall|n: int| 32 <= n < 1024
                ==> final(gic).irouter@[n] == spec_commit_route(
                    *self,
                    *root,
                    *cpus,
                    n,
                    old(gic).irouter@[n],
                ),
            forall|n: int| 0 <= n < 32 ==> final(gic).irouter@[n] == old(gic).irouter@[n],
            final(gic).enabled@ == old(gic).enabled@,
            final(gic).active@ == old(gic).active@,
            final(gic).sgi_writes@ == old(gic).sgi_writes@,
            final(gic).last_gicr == old(gic).last_gicr,
    {
        let mut n: u32 = 32;
        while n < 1024
            invariant
                32 <= n <= 1024,
                self.wf(),
                root.wf(),
                gic.wf(),
                self.cpu_set.spec_nonempty(),
                root.cpu_set.spec_nonempty(),
                forall|id: int| self.cpu_set.spec_contains(id) ==> id < cpus.spec_len(),
                forall|id: int| root.cpu_set.spec_contains(id) ==> id < cpus.spec_len(),
                forall|m: int| 32 <= m < n
                    ==> gic.irouter@[m] == spec_commit_route(
                        *self,
                        *root,
                        *cpus,
                        m,
                        old(gic).irouter@[m],
                    ),
                forall|m: int| (0 <= m < 32 || n <= m < 1024)
                    ==> gic.irouter@[m] == old(gic).irouter@[m],
                gic.enabled@ == old(gic).enabled@,
                gic.active@ == old(gic).active@,
                gic.sgi_writes@ == old(gic).sgi_writes@,
                gic.last_gicr == old(gic).last_gicr,
            decreases 1024 - n,
        {
            if self.irq_in_cell(n) {
                self.gicv3_adjust_irq_target(n, gic, cpus);
            }
            if root.irq_in_cell(n) {
                root.gicv3_adjust_irq_target(n, gic, cpus);
            }
            n = n + 1;
        }
    }

    /// Mask and deactivate at the distributor every shared interrupt the
    /// cell owns: write each bitmap word (skipping the core-local word 0)
    /// to the clear-enable and clear-active registers. Idempotent, so a
    /// partially initialized cell can be torn down safely.
    pub fn irqchip_reset(&self, gic: &mut GicState)
        requires
            self.irq_bitmap.wf(),
            old(gic).wf(),
        ensures
            final(gic).wf(),
            forall|i: int| 1 <= i < 32
                ==> final(gic).enabled@[i] == old(gic).enabled@[i] & !self.irq_bitmap.word(i),
            forall|i: int| 1 <= i < 32
                ==> final(gic).active@[i] == old(gic).active@[i] & !self.irq_bitmap.word(i),
            final(gic).enabled@[0] == old(gic).enabled@[0],
            final(gic).active@[0] == old(gic).active@[0],
            final(gic).irouter@ == old(gic).irouter@,
            final(gic).sgi_writes@ == old(gic).sgi_writes@,
            final(gic).last_gicr == old(gic).last_gicr,
    {
        let mut idx: usize = 1;
        while idx < 32
            invariant
                1 <= idx <= 32,
                self.irq_bitmap.wf(),
                gic.wf(),
                forall|i: int| 1 <= i < idx
                    ==> gic.enabled@[i] == old(gic).enabled@[i] & !self.irq_bitmap.word(i),
                forall|i: int| 1 <= i < idx
                    ==> gic.active@[i] == old(gic).active@[i] & !self.irq_bitmap.word(i),
                forall|i: int| i == 0 || idx <= i < 32 ==> gic.enabled@[i] == old(gic).enabled@[i],
                forall|i: int| i == 0 || idx <= i < 32 ==> gic.active@[i] == old(gic).active@[i],
                gic.irouter@ == old(gic).irouter@,
                gic.sgi_writes@ == old(gic).sgi_writes@,
                gic.last_gicr == old(gic).last_gicr,
            decreases 32 - idx,
        {
            let mask = self.irq_bitmap.word_at(idx);
            gic.write_icenabler(idx, mask);
            gic.write_icactiver(idx, mask);
            idx = idx + 1;
        }
    }

    /// Tear down the cell's interrupt state: mask and deactivate its shared
    /// interrupts at the distributor, then return its distributor pins to
    /// the root cell, and finally keep of the root bitmap only pins the
    /// root's own declaration contains, so pins that never belonged to the
    /// root are not granted to it.
    pub fn gicv3_exit(&self, root: &mut Cell, gic: &mut GicState, sys: &HvSystemConfig)
        requires
            self.wf(),
            old(root).wf(),
            old(gic).wf(),
        ensures
            final(root).wf(),
            spec_eq_except_irq(*final(root), *old(root)),
            final(root).irq_bitmap.wf(),
            final(root).irq_bitmap.spec_words() == spec_and_chips(
                spec_or_chips(
                    old(root).irq_bitmap.spec_words(),
                    self.config.irq_chips@,
                    sys.platform_info.arch.gicd_base,
                    self.config.irq_chips@.len() as int,
                ),
                old(root).config.irq_chips@,
                sys.platform_info.arch.gicd_base,
                old(root).config.irq_chips@.len() as int,
            ),
            final(gic).wf(),
            forall|i: int| 1 <= i < 32
                ==> final(gic).enabled@[i] == old(gic).enabled@[i] & !self.irq_bitmap.word(i),
            forall|i: int| 1 <= i < 32
                ==> final(gic).active@[i] == old(gic).active@[i] & !self.irq_bitmap.word(i),
            final(gic).enabled@[0] == old(gic).enabled@[0],
            final(gic).active@[0] == old(gic).active@[0],
            final(gic).irouter@ == old(gic).irouter@,
            final(gic).sgi_writes@ == old(gic).sgi_writes@,
            final(gic).last_gicr == old(gic).last_gicr,
    {
        self.irqchip_reset(gic);
        let gicd_base = sys.platform_info.arch.gicd_base;
        let ghost w0 = root.irq_bitmap.spec_words();
        let ghost chips1 = self.config.irq_chips@;

        // Return every distributor pin of the torn-down cell to the root.
        let n1: usize = self.config.irq_chips.len();
        let mut j: usize = 0;
        while j < n1
            invariant
                j <= n1,
                n1 == self.config.irq_chips@.len(),
                chips1 == self.config.irq_chips@,
                self.wf(),
                root.wf(),
                spec_eq_except_irq(*root, *old(root)),
                root.config == old(root).config,
                w0 == old(root).irq_bitmap.spec_words(),
                root.irq_bitmap.spec_words() == spec_or_chips(w0, chips1, gicd_base, j as int),
            decreases n1 - j,
        {
            let chip = self.config.irq_chips[j];
            if chip.address == gicd_base {
                let ghost we = root.irq_bitmap.spec_words();
                let base_word: usize = (chip.pin_base / 32) as usize;
                let mut k: usize = 0;
                while k < 4
                    invariant
                        k <= 4,
                        chip.wf(),
                        base_word == chip.pin_base / 32,
                        root.wf(),
                        spec_eq_except_irq(*root, *old(root)),
                        root.config == old(root).config,
                        we.len() == 32,
                        spec_apply_or_chip(root.irq_bitmap.spec_words(), chip, k as int)
                            == spec_apply_or_chip(we, chip, 0),
                        root.irq_bitmap.wf(),
                    decreases 4 - k,
                {
                    let ghost before = root.irq_bitmap.spec_words();
                    let w = root.irq_bitmap.word_at(base_word + k);
                    root.irq_bitmap.or_word(base_word + k, chip.pin_bitmap[k]);
                    proof {
                        assert(root.irq_bitmap.spec_words() == before.update(
                            chip.spec_word_index(k as int),
                            before[chip.spec_word_index(k as int)] | chip.pin_bitmap[k as int],
                        ));
                    }
                    k = k + 1;
                }
            }
            j = j + 1;
        }
        proof {
            assert(root.irq_bitmap.spec_words() == spec_or_chips(
                w0,
                chips1,
                gicd_base,
                n1 as int,
            ));
        }

        // Keep only pins of the root cell's own declaration.
        let ghost w1 = root.irq_bitmap.spec_words();
        let ghost chips2 = root.config.irq_chips@;
        let n2: usize = root.config.irq_chips.len();
        let mut j2: usize = 0;
        while j2 < n2
            invariant
                j2 <= n2,
                n2 == root.config.irq_chips@.len(),
                chips2 == root.config.irq_chips@,
                root.wf(),
                spec_eq_except_irq(*root, *old(root)),
                root.config == old(root).config,
                w1 == spec_or_chips(w0, chips1, gicd_base, chips1.len() as int),
                w0 == old(root).irq_bitmap.spec_words(),
                chips1 == self.config.irq_chips@,
                root.irq_bitmap.spec_words() == spec_and_chips(w1, chips2, gicd_base, j2 as int),
            decreases n2 - j2,
        {
            let chip = root.config.irq_chips[j2];
            if chip.address == gicd_base {
                let ghost we = root.irq_bitmap.spec_words();
                let base_word: usize = (chip.pin_base / 32) as usize;
                let mut k: usize = 0;
                while k < 4
                    invariant
                        k <= 4,
                        chip.wf(),
                        base_word == chip.pin_base / 32,
                        root.wf(),
                        spec_eq_except_irq(*root, *old(root)),
                        root.config == old(root).config,
                        we.len() == 32,
                        spec_apply_and_chip(root.irq_bitmap.spec_words(), chip, k as int)
                            == spec_apply_and_chip(we, chip, 0),
                        root.irq_bitmap.wf(),
                    decreases 4 - k,
                {
                    let ghost before = root.irq_bitmap.spec_words();
                    root.irq_bitmap.and_word(base_word + k, chip.pin_bitmap[k]);
                    proof {
                        assert(root.irq_bitmap.spec_words() == before.update(
                            chip.spec_word_index(k as int),
                            before[chip.spec_word_index(k as int)] & chip.pin_bitmap[k as int],
                        ));
                    }
                    k = k + 1;
                }
            }
            j2 = j2 + 1;
        }
    }
}


/// The mapped-region sequence after inserting each region of `rs` in turn.
pub open spec fn spec_fold_gpm(g: Seq<MemoryRegion>, rs: Seq<MemoryRegion>) -> Seq<MemoryRegion>
    decreases rs.len(),
{
    if rs.len() == 0 {
        g
    } else {
        spec_fold_gpm(spec_insert_gpm(g, rs[0]), rs.drop_first())
    }
}

/// The MMIO table after inserting each region of `rs` in turn.
pub open spec fn spec_fold_mmio(m: Seq<MMIOConfig>, rs: Seq<MemoryRegion>) -> Seq<MMIOConfig>
    decreases rs.len(),
{
    if rs.len() == 0 {
        m
    } else {
        spec_fold_mmio(spec_insert_mmio(m, rs[0]), rs.drop_first())
    }
}

/// Every insert of the chain succeeds.
pub open spec fn spec_fold_ok(
    g: Seq<MemoryRegion>,
    m: Seq<MMIOConfig>,
    rs: Seq<MemoryRegion>,
) -> bool
    decreases rs.len(),
{
    rs.len() == 0 || (spec_insert_ok(g, m, rs[0]) && spec_fold_ok(
        spec_insert_gpm(g, rs[0]),
        spec_insert_mmio(m, rs[0]),
        rs.drop_first(),
    ))
}

/// The error of the first failing insert of the chain.
pub open spec fn spec_fold_err(
    g: Seq<MemoryRegion>,
    m: Seq<MMIOConfig>,
    rs: Seq<MemoryRegion>,
) -> HvError
    decreases rs.len(),
{
    if rs.len() == 0 {
        HvError::NotFound
    } else if !spec_insert_ok(g, m, rs[0]) {
        spec_insert_err(rs[0])
    } else {
        spec_fold_err(spec_insert_gpm(g, rs[0]), spec_insert_mmio(m, rs[0]), rs.drop_first())
    }
}

/// The region a configuration descriptor entry declares.
pub open spec fn spec_region_of_desc(d: HvMemoryRegion) -> MemoryRegion {
    MemoryRegion { start: d.virt_start, phys_start: d.phys_start, size: d.size, flags: d.flags }
}

/// The identity-mapped region backing the hypervisor's own image.
pub open spec fn spec_hv_region(sys: HvSystemConfig) -> MemoryRegion {
    MemoryRegion {
        start: sys.hypervisor_memory.phys_start,
        phys_start: sys.hypervisor_memory.phys_start,
        size: sys.hypervisor_memory.size,
        flags: MEM_READ | MEM_NO_HUGEPAGES,
    }
}

/// The identity-mapped PCI extended-configuration window.
pub open spec fn spec_mmcfg_region(sys: HvSystemConfig) -> MemoryRegion {
    MemoryRegion {
        start: sys.platform_info.pci_mmconfig_base,
        phys_start: sys.platform_info.pci_mmconfig_base,
        size: sys.spec_mmcfg_size() as u64,
        flags: MEM_READ | MEM_WRITE | MEM_IO,
    }
}

/// Everything the root cell maps at creation, in insertion order: the
/// hypervisor image, the declared system memory regions, and the PCI
/// configuration window.
pub open spec fn spec_root_regions(sys: HvSystemConfig) -> Seq<MemoryRegion> {
    seq![spec_hv_region(sys)] + Seq::new(
        sys.root_cell.mem_regions@.len(),
        |i: int| spec_region_of_desc(sys.root_cell.mem_regions@[i]),
    ) + seq![spec_mmcfg_region(sys)]
}

/// What `new_root` promises of the root cell it built.
pub open spec fn spec_is_fresh_root_cell(cell: Cell, sys: HvSystemConfig, cpus: PerCpuList) -> bool {
    &&& cell.wf()
    &&& spec_config_eq(cell.config, sys.root_cell)
    &&& cell.cpu_set.bitmap == sys.root_cell.cpu_set
    &&& cell.spec_gpm().spec_regions() == spec_fold_gpm(
        Seq::empty(),
        spec_root_regions(sys),
    )
    &&& cell.mmio@ == spec_fold_mmio(spec_handler_cfgs(sys, cpus), spec_root_regions(sys))
    &&& cell.loadable == false
    &&& cell.comm_page.comm_region == spec_comm_region_zero()
    &&& forall|w: int| 0 <= w < 32
        ==> cell.irq_bitmap.word(w) == spec_initial_word(sys.root_cell, w)
}

impl Cell {
    /// Build the root cell: create it from the system configuration's root
    /// descriptor, then map the hypervisor's own image (so guest-triggered
    /// shutdown cannot fault on it), every declared system memory region,
    /// and the PCI configuration window.
    pub fn new_root(
        sys: &HvSystemConfig,
        cpus: &PerCpuList,
        registry: &mut CellRegistry,
        gic: &mut GicState,
    ) -> (res: Result<Cell, HvError>)
        requires
            sys.wf(),
            forall|id: int| cpu_bit(sys.root_cell.cpu_set, id) ==> id < cpus.spec_len(),
            sys.platform_info.arch.gicd_base + GICD_SIZE <= u64::MAX,
            forall|i: int| 0 <= i < cpus.spec_len()
                ==> (#[trigger] cpus.cpus@[i]).gicr_base + GICR_SIZE <= u64::MAX,
        ensures
            *final(registry) == *old(registry),
            final(gic).irouter@ == old(gic).irouter@,
            final(gic).enabled@ == old(gic).enabled@,
            final(gic).active@ == old(gic).active@,
            final(gic).sgi_writes@ == old(gic).sgi_writes@,
            (res is Ok) <==> (spec_npages(sys.root_cell.total_size) == 1 && spec_handlers_ok(
                Seq::empty(),
                *sys,
                *cpus,
                old(gic).last_gicr,
            ) && spec_fold_ok(
                Seq::empty(),
                spec_handler_cfgs(*sys, *cpus),
                spec_root_regions(*sys),
            )),
            res matches Ok(cell) ==> spec_is_fresh_root_cell(cell, *sys, *cpus),
            spec_npages(sys.root_cell.total_size) != 1 ==> res == Err::<Cell, HvError>(
                HvError::InvalidConfig,
            ),
            (spec_npages(sys.root_cell.total_size) == 1 && spec_starts_unique(
                spec_handler_prefix(Seq::empty(), *sys, *cpus),
            ) && !spec_gicr_counted_ok(*sys, *cpus, old(gic).last_gicr)) ==> res == Err::<
                Cell,
                HvError,
            >(HvError::NoRedistributor),
            (spec_npages(sys.root_cell.total_size) == 1 && !spec_starts_unique(
                Seq::empty() + spec_handler_cfgs(*sys, *cpus),
            ) && (spec_starts_unique(spec_handler_prefix(Seq::empty(), *sys, *cpus))
                ==> spec_gicr_counted_ok(*sys, *cpus, old(gic).last_gicr))) ==> res == Err::<
                Cell,
                HvError,
            >(HvError::DuplicateMmio),
            (spec_npages(sys.root_cell.total_size) == 1 && spec_handlers_ok(
                Seq::empty(),
                *sys,
                *cpus,
                old(gic).last_gicr,
            ) && !spec_fold_ok(
                Seq::empty(),
                spec_handler_cfgs(*sys, *cpus),
                spec_root_regions(*sys),
            )) ==> res == Err::<Cell, HvError>(spec_fold_err(
                Seq::empty(),
                spec_handler_cfgs(*sys, *cpus),
                spec_root_regions(*sys),
            )),
    {
        let root_config = sys.root_cell.duplicate();
        proof {
            assert(spec_initial_word(root_config, 0) == spec_initial_word(sys.root_cell, 0));
        }
        let mut cell = match Cell::new(root_config, sys, cpus, registry, gic, true) {
            Ok(c) => c,
            Err(e) => {
                return Err(e);
            }
        };
        let ghost rs = spec_root_regions(*sys);
        let ghost g0 = cell.spec_gpm().spec_regions();
        let ghost m0 = cell.mmio@;
        let ghost c0 = cell;

        // Back the hypervisor's own image.
        let hv_phys_start = sys.hypervisor_memory.phys_start;
        let hv_phys_size = sys.hypervisor_memory.size;
        let hv_region = MemoryRegion::new_with_offset_mapper(
            hv_phys_start,
            hv_phys_start,
            hv_phys_size,
            MEM_READ | MEM_NO_HUGEPAGES,
        );
        proof {
            assert(rs[0] == hv_region);
            assert(rs.len() == sys.root_cell.mem_regions@.len() + 2);
        }
        match cell.mem_region_insert(hv_region) {
            Ok(_) => {}
            Err(e) => {
                proof {
                    assert(!spec_fold_ok(g0, m0, rs));
                    assert(spec_fold_err(g0, m0, rs) == spec_insert_err(rs[0]));
                }
                return Err(e);
            }
        }
        proof {
            assert(rs.drop_first() =~= rs.skip(1));
        }

        // Map every declared system memory region.
        let n: usize = sys.root_cell.mem_regions.len();
        let mut i: usize = 0;
        while i < n
            invariant
                i <= n,
                n == sys.root_cell.mem_regions@.len(),
                sys.wf(),
                rs == spec_root_regions(*sys),
                rs.len() == n + 2,
                cell.wf(),
                spec_eq_except_memory(cell, c0),
                g0 == Seq::<MemoryRegion>::empty(),
                m0 == spec_handler_cfgs(*sys, *cpus),
                *registry == *old(registry),
                gic.irouter@ == old(gic).irouter@,
                gic.enabled@ == old(gic).enabled@,
                gic.active@ == old(gic).active@,
                gic.sgi_writes@ == old(gic).sgi_writes@,
                spec_npages(sys.root_cell.total_size) == 1,
                spec_handlers_ok(Seq::empty(), *sys, *cpus, old(gic).last_gicr),
                spec_fold_gpm(g0, rs) == spec_fold_gpm(
                    cell.spec_gpm().spec_regions(),
                    rs.skip(1 + i as int),
                ),
                spec_fold_mmio(m0, rs) == spec_fold_mmio(cell.mmio@, rs.skip(1 + i as int)),
                spec_fold_ok(g0, m0, rs) <==> spec_fold_ok(
                    cell.spec_gpm().spec_regions(),
                    cell.mmio@,
                    rs.skip(1 + i as int),
                ),
                spec_fold_err(g0, m0, rs) == spec_fold_err(
                    cell.spec_gpm().spec_regions(),
                    cell.mmio@,
                    rs.skip(1 + i as int),
                ),
            decreases n - i,
        {
            let d = sys.root_cell.mem_regions[i];
            proof {
                assert(sys.root_cell.mem_regions@[i as int].wf());
            }
            let region = MemoryRegion::new_with_offset_mapper(
                d.virt_start,
                d.phys_start,
                d.size,
                d.flags,
            );
            let ghost rem = rs.skip(1 + i as int);
            proof {
                assert(rem[0] == rs[1 + i as int]);
                assert(rs[1 + i as int] == spec_region_of_desc(sys.root_cell.mem_regions@[i as int]));
                assert(rem[0] == region);
                assert(rem.drop_first() =~= rs.skip(2 + i as int));
            }
            match cell.mem_region_insert(region) {
                Ok(_) => {}
                Err(e) => {
                    return Err(e);
                }
            }
            i = i + 1;
        }

        // Map the PCI extended configuration window.
        let mmcfg_start = sys.platform_info.pci_mmconfig_base;
        let mmcfg_size: u64 = (sys.platform_info.pci_mmconfig_end_bus as u64 + 1) * 256 * 4096;
        let mmcfg_region = MemoryRegion::new_with_offset_mapper(
            mmcfg_start,
            mmcfg_start,
            mmcfg_size,
            MEM_READ | MEM_WRITE | MEM_IO,
        );
        let ghost rem = rs.skip(1 + n as int);
        let ghost gpre = cell.spec_gpm().spec_regions();
        let ghost mpre = cell.mmio@;
        proof {
            assert(rem[0] == rs[1 + n as int]);
            assert(rem[0] == mmcfg_region);
            assert(rem.drop_first() =~= rs.skip(2 + n as int));
            assert(rs.skip(2 + n as int) =~= Seq::<MemoryRegion>::empty());
        }
        match cell.mem_region_insert(mmcfg_region) {
            Ok(_) => {}
            Err(e) => {
                proof {
                    assert(!spec_insert_ok(gpre, mpre, rem[0]));
                    assert(spec_fold_err(gpre, mpre, rem) == spec_insert_err(rem[0]));
                    assert(!spec_fold_ok(gpre, mpre, rem));
                }
                return Err(e);
            }
        }
        proof {
            assert(spec_fold_gpm(gpre, rem) == spec_fold_gpm(
                spec_insert_gpm(gpre, rem[0]),
                rem.drop_first(),
            ));
            assert(spec_fold_gpm(spec_insert_gpm(gpre, rem[0]), rem.drop_first())
                == spec_insert_gpm(gpre, rem[0]));
            assert(cell.spec_gpm().spec_regions() == spec_fold_gpm(g0, rs));
            assert(spec_fold_mmio(mpre, rem) == spec_fold_mmio(
                spec_insert_mmio(mpre, rem[0]),
                rem.drop_first(),
            ));
            assert(cell.mmio@ == spec_fold_mmio(m0, rs));
            assert(spec_insert_ok(gpre, mpre, rem[0]));
            assert(spec_fold_ok(
                spec_insert_gpm(gpre, rem[0]),
                spec_insert_mmio(mpre, rem[0]),
                rem.drop_first(),
            ));
            assert(spec_fold_ok(gpre, mpre, rem));
            assert(spec_fold_ok(g0, m0, rs));
            assert forall|w: int| 0 <= w < 32
                implies cell.irq_bitmap.word(w) == spec_initial_word(sys.root_cell, w) by {
                assert(cell.irq_bitmap.word(w) == spec_initial_word(cell.config, w));
                assert(cell.config.irq_chips@ == sys.root_cell.irq_chips@);
                assert(spec_initial_word(cell.config, w) == spec_initial_word(sys.root_cell, w));
            }
        }
        Ok(cell)
    }
}

/// No interrupt is claimed by two of the bitmaps.
pub open spec fn spec_single_owner(bms: Seq<IrqBitmap>) -> bool {
    forall|i: int, j: int, id: int|
        #![trigger bms[i].spec_has(id), bms[j].spec_has(id)]
        0 <= i < j < bms.len() ==> !(bms[i].spec_has(id) && bms[j].spec_has(id))
}

/// The interrupt bitmaps of all live cells: the root's first, then the
/// other cells' in registry order.
pub open spec fn spec_registry_bitmaps(reg: CellRegistry) -> Seq<IrqBitmap> {
    let others = Seq::new(reg.cells@.len(), |i: int| reg.cells@[i].irq_bitmap);
    if reg.spec_has_root() {
        seq![reg.spec_root().irq_bitmap] + others
    } else {
        others
    }
}

/// Single ownership of interrupts is preserved by cell creation: the root's
/// bitmap shrinks by the fresh cell's claim, and the fresh cell—whose claim
/// is disjoint from every other non-root cell—joins the family.
pub proof fn lemma_single_owner_after_create(
    others: Seq<IrqBitmap>,
    root0: IrqBitmap,
    root1: IrqBitmap,
    fresh: IrqBitmap,
)
    requires
        spec_single_owner(seq![root0] + others),
        diff_semantics(root1, root0, fresh),
        forall|k: int, id: int|
            #![trigger others[k].spec_has(id)]
            0 <= k < others.len() ==> !(others[k].spec_has(id) && fresh.spec_has(id)),
    ensures
        spec_single_owner(seq![root1] + others + seq![fresh]),
{
    let s = seq![root1] + others + seq![fresh];
    let s0 = seq![root0] + others;
    assert forall|i: int, j: int, id: int|
        #![trigger s[i].spec_has(id), s[j].spec_has(id)]
        0 <= i < j < s.len() implies !(s[i].spec_has(id) && s[j].spec_has(id)) by {
        assert(s.len() == others.len() + 2);
        assert(s[0] == root1);
        if j == s.len() - 1 {
            assert(s[j] == fresh);
            if i == 0 {
                assert(!(root1.spec_has(id) && fresh.spec_has(id)));
            } else {
                assert(s[i] == others[i - 1]);
            }
        } else {
            assert(s[j] == others[j - 1]);
            assert(s0[j] == others[j - 1]);
            if i == 0 {
                assert(s0[0] == root0);
                assert(!(root0.spec_has(id) && s0[j].spec_has(id)));
                assert(root1.spec_has(id) ==> root0.spec_has(id));
            } else {
                assert(s[i] == others[i - 1]);
                assert(s0[i] == others[i - 1]);
                assert(!(s0[i].spec_has(id) && s0[j].spec_has(id)));
            }
        }
    }
}

/// Single ownership of interrupts, at the registry: let `reg0` be a
/// registry whose live cells (root first) own each interrupt at most once;
/// let `reg1` be `reg0` after a cell was created against it (the root's
/// bitmap lost the fresh cell's claim, nothing else moved); and let `reg2`
/// be `reg1` with the fresh cell appended. If the fresh claim is disjoint
/// from every other non-root cell's bitmap, each interrupt still has at
/// most one owner among all live cells of `reg2`.
pub proof fn lemma_registry_single_owner_after_create(
    reg0: CellRegistry,
    reg1: CellRegistry,
    reg2: CellRegistry,
    cell: Cell,
)
    requires
        reg0.spec_has_root(),
        reg1.spec_has_root(),
        spec_single_owner(spec_registry_bitmaps(reg0)),
        diff_semantics(
            reg1.spec_root().irq_bitmap,
            reg0.spec_root().irq_bitmap,
            cell.irq_bitmap,
        ),
        reg1.cells@ == reg0.cells@,
        reg2.root == reg1.root,
        reg2.cells@ == reg1.cells@.push(cell),
        forall|k: int, id: int|
            #![trigger reg0.cells@[k].irq_bitmap.spec_has(id)]
            0 <= k < reg0.cells@.len() ==> !(reg0.cells@[k].irq_bitmap.spec_has(id)
                && cell.irq_bitmap.spec_has(id)),
    ensures
        spec_single_owner(spec_registry_bitmaps(reg2)),
{
    let others = Seq::new(reg0.cells@.len(), |i: int| reg0.cells@[i].irq_bitmap);
    let root0 = reg0.spec_root().irq_bitmap;
    let root1 = reg1.spec_root().irq_bitmap;
    let fresh = cell.irq_bitmap;
    assert(spec_registry_bitmaps(reg0) == seq![root0] + others);
    assert forall|k: int, id: int|
        #![trigger others[k].spec_has(id)]
        0 <= k < others.len() implies !(others[k].spec_has(id) && fresh.spec_has(id)) by {
        assert(others[k] == reg0.cells@[k].irq_bitmap);
    }
    lemma_single_owner_after_create(others, root0, root1, fresh);
    assert(spec_registry_bitmaps(reg2) =~= seq![root1] + others + seq![fresh]);
}

/// Append a live cell to the registry.
pub fn add_cell(registry: &mut CellRegistry, cell: Cell)
    ensures
        final(registry).cells@ == old(registry).cells@.push(cell),
        final(registry).root == old(registry).root,
{
    registry.cells.push(cell);
}

/// Remove the non-root cell with identifier `cell_id` from the registry; an
/// unknown identifier is reported as `NotFound`.
pub fn remove_cell(registry: &mut CellRegistry, cell_id: u32) -> (res: HvResult)
    ensures
        final(registry).root == old(registry).root,
        (res is Ok) <==> (exists|i: int|
            0 <= i < old(registry).cells@.len()
                && (#[trigger] old(registry).cells@[i]).config.id == cell_id),
        res is Ok ==> exists|i: int|
            0 <= i < old(registry).cells@.len()
                && (#[trigger] old(registry).cells@[i]).config.id == cell_id
                && final(registry).cells@ == old(registry).cells@.remove(i)
                && (forall|j: int| 0 <= j < i
                    ==> (#[trigger] old(registry).cells@[j]).config.id != cell_id),
        res is Err ==> final(registry).cells@ == old(registry).cells@
            && res == Err::<(), HvError>(HvError::NotFound),
{
    let n: usize = registry.cells.len();
    let mut i: usize = 0;
    while i < n
        invariant
            i <= n,
            n == registry.cells@.len(),
            *registry == *old(registry),
            forall|j: int| 0 <= j < i
                ==> (#[trigger] registry.cells@[j]).config.id != cell_id,
        decreases n - i,
    {
        if registry.cells[i].id() == cell_id {
            registry.cells.remove(i);
            return Ok(());
        }
        i = i + 1;
    }
    Err(HvError::NotFound)
}

/// The distinguished root cell; the registry must be initialized.
pub fn root_cell(registry: &CellRegistry) -> (r: &Cell)
    requires
        registry.spec_has_root(),
    ensures
        *r == registry.spec_root(),
{
    registry.root.as_ref().unwrap()
}

/// Look up a live cell (the root included) by identifier; a miss is an
/// explicit `None`, never a default.
pub fn find_cell_by_id(registry: &CellRegistry, cell_id: u32) -> (r: Option<&Cell>)
    ensures
        r matches Some(c) ==> c.config.id == cell_id,
        r matches Some(c) ==> (registry.spec_has_root() && *c == registry.spec_root())
            || (exists|i: int|
                0 <= i < registry.cells@.len() && (#[trigger] registry.cells@[i]) == *c),
        (r is None) ==> (registry.spec_has_root()
            ==> registry.spec_root().config.id != cell_id) && (forall|i: int|
            0 <= i < registry.cells@.len()
                ==> (#[trigger] registry.cells@[i]).config.id != cell_id),
{
    match &registry.root {
        Some(root) => {
            if root.id() == cell_id {
                return Some(root);
            }
        }
        None => {}
    }
    let n: usize = registry.cells.len();
    let mut i: usize = 0;
    while i < n
        invariant
            i <= n,
            n == registry.cells@.len(),
            forall|j: int| 0 <= j < i
                ==> (#[trigger] registry.cells@[j]).config.id != cell_id,
        decreases n - i,
    {
        let c = &registry.cells[i];
        if c.id() == cell_id {
            return Some(c);
        }
        i = i + 1;
    }
    None
}

impl CellRegistry {
    /// A registry with no root cell and no other cells yet.
    pub fn new() -> (r: CellRegistry)
        ensures
            !r.spec_has_root(),
            r.cells@ == Seq::<Cell>::empty(),
    {
        CellRegistry { root: None, cells: Vec::new() }
    }
}

/// One-time boot initialization: build the root cell and record it. A
/// second initialization is a logic error, reported as
/// `AlreadyInitialized` with nothing changed.
pub fn init(
    registry: &mut CellRegistry,
    sys: &HvSystemConfig,
    cpus: &PerCpuList,
    gic: &mut GicState,
) -> (res: HvResult)
    requires
        sys.wf(),
        forall|id: int| cpu_bit(sys.root_cell.cpu_set, id) ==> id < cpus.spec_len(),
        sys.platform_info.arch.gicd_base + GICD_SIZE <= u64::MAX,
        forall|i: int| 0 <= i < cpus.spec_len()
            ==> (#[trigger] cpus.cpus@[i]).gicr_base + GICR_SIZE <= u64::MAX,
    ensures
        final(registry).cells@ == old(registry).cells@,
        final(gic).irouter@ == old(gic).irouter@,
        final(gic).enabled@ == old(gic).enabled@,
        final(gic).active@ == old(gic).active@,
        final(gic).sgi_writes@ == old(gic).sgi_writes@,
        old(registry).spec_has_root() ==> res == Err::<(), HvError>(HvError::AlreadyInitialized)
            && *final(registry) == *old(registry) && *final(gic) == *old(gic),
        !old(registry).spec_has_root() ==> {
            &&& ((res is Ok) <==> (spec_npages(sys.root_cell.total_size) == 1 && spec_handlers_ok(
                Seq::empty(),
                *sys,
                *cpus,
                old(gic).last_gicr,
            ) && spec_fold_ok(
                Seq::empty(),
                spec_handler_cfgs(*sys, *cpus),
                spec_root_regions(*sys),
            )))
            &&& (res is Ok ==> final(registry).spec_has_root()
                && spec_is_fresh_root_cell(final(registry).spec_root(), *sys, *cpus))
            &&& (res is Err ==> !final(registry).spec_has_root())
        },
{
    if registry.root.is_some() {
        return Err(HvError::AlreadyInitialized);
    }
    let root = match Cell::new_root(sys, cpus, registry, gic) {
        Ok(c) => c,
        Err(e) => {
            return Err(e);
        }
    };
    registry.root = Some(root);
    Ok(())
}


/// What the creation subtracted, the teardown's OR pass returns and its mask
/// pass trims to the declaration: per word, the original value.
proof fn lemma_restore_word(r: u32, c: u32)
    by (bit_vector)
    ensures
        ((r & !c) | c) & r == r,
{
}

/// Clearing nothing changes nothing.
proof fn lemma_andnot_zero(x: u32)
    by (bit_vector)
    ensures
        x & !0u32 == x,
{
}

/// Pointwise meaning of OR-ing a whole chip list (all on the distributor at
/// pin base 32) into a 32-word bitmap: words 1..=4 gather the OR of the pin
/// words, the rest stay put.
pub proof fn lemma_or_chips_pointwise(w0: Seq<u32>, chips: Seq<HvIrqChip>, gicd: u64, n: int)
    requires
        w0.len() == 32,
        0 <= n <= chips.len(),
        forall|i: int| 0 <= i < chips.len()
            ==> (#[trigger] chips[i]).address == gicd && chips[i].pin_base == 32,
    ensures
        spec_or_chips(w0, chips, gicd, n).len() == 32,
        forall|x: int| 0 <= x < 32
            ==> spec_or_chips(w0, chips, gicd, n)[x] == if 1 <= x < 5 {
                w0[x] | spec_claimed_word(chips, x - 1, n)
            } else {
                w0[x]
            },
    decreases n,
{
    lemma_or_zero();
    if n > 0 {
        lemma_or_chips_pointwise(w0, chips, gicd, n - 1);
        let prev = spec_or_chips(w0, chips, gicd, n - 1);
        let chip = chips[n - 1];
        assert(chip.wf());
        lemma_apply_or_chip(prev, chip);
        assert forall|x: int| 0 <= x < 32
            implies spec_or_chips(w0, chips, gicd, n)[x] == (if 1 <= x < 5 {
                w0[x] | spec_claimed_word(chips, x - 1, n)
            } else {
                w0[x]
            }) by {
            if 1 <= x < 5 {
                assert(chip.pin_base / 32 == 1);
                assert(spec_or_chips(w0, chips, gicd, n)[x]
                    == (w0[x] | spec_claimed_word(chips, x - 1, n - 1)) | chip.pin_bitmap[x - 1]);
                lemma_or_assoc(w0[x], spec_claimed_word(chips, x - 1, n - 1), chip.pin_bitmap[x - 1]);
            }
        }
    }
}

/// Claimed interrupts return to the root only as far as the root's own
/// declaration reaches. A non-root cell is created against a root whose
/// bitmap holds exactly its own declaration (one distributor chip at pin
/// base 32); creation subtracts the cell's claim; teardown ORs the cell's
/// distributor pins back and masks with the root's declared pins. The root
/// bitmap ends exactly where it began: of the claimed bits, exactly those
/// in the root's declaration reappear.
pub proof fn lemma_create_teardown_restores_root(
    root_bm0: Seq<u32>,
    root_bm1: Seq<u32>,
    cell_cfg: CellConfig,
    root_chip: HvIrqChip,
    gicd: u64,
)
    requires
        root_bm0.len() == 32,
        root_bm1.len() == 32,
        root_chip.address == gicd,
        root_chip.pin_base == 32,
        forall|w: int| 0 <= w < 32 ==> root_bm0[w] == (if 1 <= w < 5 {
            root_chip.pin_bitmap[w - 1]
        } else {
            0u32
        }),
        forall|w: int| 0 <= w < 32 ==> root_bm1[w] == root_bm0[w] & !spec_initial_word(cell_cfg, w),
        forall|i: int| 0 <= i < cell_cfg.irq_chips@.len()
            ==> (#[trigger] cell_cfg.irq_chips@[i]).address == gicd
                && cell_cfg.irq_chips@[i].pin_base == 32,
    ensures
        spec_and_chips(
            spec_or_chips(root_bm1, cell_cfg.irq_chips@, gicd, cell_cfg.irq_chips@.len() as int),
            seq![root_chip],
            gicd,
            1,
        ) =~= root_bm0,
{
    let chips = cell_cfg.irq_chips@;
    let n = chips.len() as int;
    lemma_or_chips_pointwise(root_bm1, chips, gicd, n);
    let or_res = spec_or_chips(root_bm1, chips, gicd, n);
    assert(root_chip.wf());
    assert(spec_and_chips(or_res, seq![root_chip], gicd, 0) == or_res);
    assert(seq![root_chip][0] == root_chip);
    assert(spec_and_chips(or_res, seq![root_chip], gicd, 1) == spec_apply_and_chip(
        or_res,
        root_chip,
        0,
    ));
    lemma_apply_and_chip(or_res, root_chip);
    let and_res = spec_apply_and_chip(or_res, root_chip, 0);
    assert forall|x: int| 0 <= x < 32 implies and_res[x] == root_bm0[x] by {
        if 1 <= x < 5 {
            let r = root_chip.pin_bitmap[x - 1];
            let c = spec_initial_word(cell_cfg, x);
            assert(root_bm0[x] == r);
            assert(root_bm1[x] == r & !c);
            assert(spec_claimed_word(chips, x - 1, n) == c);
            assert(or_res[x] == (r & !c) | c);
            assert(root_chip.pin_base / 32 == 1);
            assert(and_res[x] == ((r & !c) | c) & r);
            lemma_restore_word(r, c);
        } else {
            assert(root_bm0[x] == 0u32);
            assert(spec_initial_word(cell_cfg, x) == 0u32);
            lemma_andnot_zero(root_bm0[x]);
            assert(root_bm1[x] == root_bm0[x]);
            assert(or_res[x] == root_bm1[x]);
            assert(and_res[x] == or_res[x]);
        }
    }
}


} // verus!

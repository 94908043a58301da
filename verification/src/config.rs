use vstd::prelude::*;

verus! {

/// `a` and `b` describe the same cell (fieldwise, with list views).
pub open spec fn spec_config_eq(a: CellConfig, b: CellConfig) -> bool {
    &&& a.id == b.id
    &&& a.cpu_set == b.cpu_set
    &&& a.total_size == b.total_size
    &&& a.mem_regions@ == b.mem_regions@
    &&& a.irq_chips@ == b.irq_chips@
    &&& a.console == b.console
}

/// Console descriptor carried in a cell configuration; opaque to the core.
#[derive(Clone, Copy, Debug, PartialEq, Eq, Structural)]
pub struct HvConsole {
    pub address: u64,
    pub size: u64,
    pub flags: u64,
}

impl HvConsole {
    pub fn new() -> (r: Self)
        ensures
            r == (HvConsole { address: 0, size: 0, flags: 0 }),
    {
        HvConsole { address: 0, size: 0, flags: 0 }
    }
}

/// One memory region declared by a cell configuration: guest start, backing
/// physical start, size and attribute flags.
#[derive(Clone, Copy, Debug, PartialEq, Eq, Structural)]
pub struct HvMemoryRegion {
    pub virt_start: u64,
    pub phys_start: u64,
    pub size: u64,
    pub flags: u64,
}

impl HvMemoryRegion {
    pub open spec fn wf(self) -> bool {
        &&& self.size > 0
        &&& self.virt_start + self.size <= u64::MAX
        &&& self.phys_start + self.size <= u64::MAX
    }
}

/// One interrupt-controller chip declared by a cell configuration: the chip's
/// base address, the first interrupt pin it serves, and a bitmap of the pins
/// the cell claims (four 32-bit words, 128 pins).
#[derive(Clone, Copy, Debug)]
pub struct HvIrqChip {
    pub address: u64,
    pub pin_base: u32,
    pub pin_bitmap: [u32; 4],
}

impl HvIrqChip {
    /// The pins fit inside the 1024-interrupt bitmap of a cell.
    pub open spec fn wf(self) -> bool {
        self.pin_base / 32 + 4 <= 32
    }

    /// The word index of the cell bitmap that pin word `k` of this chip maps
    /// to.
    pub open spec fn spec_word_index(self, k: int) -> int {
        self.pin_base as int / 32 + k
    }
}

/// A cell's configuration descriptor, as handed over by the (external)
/// configuration parser: identifier, CPU set, declared memory regions and
/// interrupt chips, and the size of the raw descriptor blob in bytes.
#[derive(Clone, Debug)]
pub struct CellConfig {
    pub id: u32,
    pub cpu_set: u64,
    pub total_size: u64,
    pub mem_regions: Vec<HvMemoryRegion>,
    pub irq_chips: Vec<HvIrqChip>,
    pub console: HvConsole,
}

impl CellConfig {
    /// An element-for-element copy of the descriptor.
    pub fn duplicate(&self) -> (r: CellConfig)
        ensures
            spec_config_eq(r, *self),
            self.wf() ==> r.wf(),
    {
        let mut mem_regions: Vec<HvMemoryRegion> = Vec::new();
        let mut i: usize = 0;
        let n: usize = self.mem_regions.len();
        while i < n
            invariant
                i <= n,
                n == self.mem_regions@.len(),
                mem_regions@ == self.mem_regions@.subrange(0, i as int),
            decreases n - i,
        {
            mem_regions.push(self.mem_regions[i]);
            proof {
                assert(mem_regions@ =~= self.mem_regions@.subrange(0, i + 1));
            }
            i = i + 1;
        }
        let mut irq_chips: Vec<HvIrqChip> = Vec::new();
        let mut j: usize = 0;
        let m: usize = self.irq_chips.len();
        while j < m
            invariant
                j <= m,
                m == self.irq_chips@.len(),
                irq_chips@ == self.irq_chips@.subrange(0, j as int),
            decreases m - j,
        {
            irq_chips.push(self.irq_chips[j]);
            proof {
                assert(irq_chips@ =~= self.irq_chips@.subrange(0, j + 1));
            }
            j = j + 1;
        }
        proof {
            assert(mem_regions@ =~= self.mem_regions@);
            assert(irq_chips@ =~= self.irq_chips@);
        }
        let r = CellConfig {
            id: self.id,
            cpu_set: self.cpu_set,
            total_size: self.total_size,
            mem_regions,
            irq_chips,
            console: self.console,
        };
        proof {
            if self.wf() {
                assert forall|i: int| 0 <= i < r.mem_regions@.len()
                    implies (#[trigger] r.mem_regions@[i]).wf() by {
                    assert(r.mem_regions@[i] == self.mem_regions@[i]);
                }
                assert forall|i: int| 0 <= i < r.irq_chips@.len()
                    implies (#[trigger] r.irq_chips@[i]).wf() by {
                    assert(r.irq_chips@[i] == self.irq_chips@[i]);
                }
            }
        }
        r
    }

    pub open spec fn wf(self) -> bool {
        &&& forall|i: int| 0 <= i < self.mem_regions@.len()
            ==> (#[trigger] self.mem_regions@[i]).wf()
        &&& forall|i: int| 0 <= i < self.irq_chips@.len() ==> (#[trigger] self.irq_chips@[i]).wf()
    }
}

/// Architecture-specific platform addresses.
#[derive(Clone, Copy, Debug, PartialEq, Eq, Structural)]
pub struct ArchPlatformInfo {
    pub gicd_base: u64,
}

/// Platform description shared by all cells.
#[derive(Clone, Copy, Debug, PartialEq, Eq, Structural)]
pub struct PlatformInfo {
    pub pci_mmconfig_base: u64,
    pub pci_mmconfig_end_bus: u8,
    pub arch: ArchPlatformInfo,
}

/// The physical address range holding the hypervisor's own image.
#[derive(Clone, Copy, Debug, PartialEq, Eq, Structural)]
pub struct HvMemRange {
    pub phys_start: u64,
    pub size: u64,
}

/// The system-wide configuration: the root cell's descriptor, platform
/// addresses, and the hypervisor's own memory range.
#[derive(Clone, Debug)]
pub struct HvSystemConfig {
    pub root_cell: CellConfig,
    pub platform_info: PlatformInfo,
    pub hypervisor_memory: HvMemRange,
}

impl HvSystemConfig {
    /// The size in bytes of the PCI extended configuration window:
    /// 256 pages per bus, buses 0 ..= end_bus.
    pub open spec fn spec_mmcfg_size(self) -> int {
        (self.platform_info.pci_mmconfig_end_bus + 1) * 256 * 4096
    }

    pub open spec fn wf(self) -> bool {
        &&& self.root_cell.wf()
        &&& self.hypervisor_memory.size > 0
        &&& self.hypervisor_memory.phys_start + self.hypervisor_memory.size <= u64::MAX
        &&& self.platform_info.pci_mmconfig_base + self.spec_mmcfg_size() <= u64::MAX
    }
}

} // verus!

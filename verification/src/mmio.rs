use vstd::prelude::*;

verus! {

/// A guest-physical address range trapped for device emulation.
#[derive(Clone, Copy, Debug, PartialEq, Eq, Structural)]
pub struct MMIORegion {
    pub start: u64,
    pub size: u64,
}

impl MMIORegion {
    /// The range does not wrap around the address space.
    pub open spec fn wf(self) -> bool {
        self.start + self.size <= u64::MAX
    }

    /// The access `[addr, addr + size)` lies entirely inside this region.
    pub open spec fn spec_contains_region(self, addr: int, size: int) -> bool {
        self.start <= addr && addr + size <= self.start + self.size
    }

    /// Exact containment test for an access of `size` bytes at `addr`.
    pub fn contains_region(&self, addr: u64, size: u64) -> (r: bool)
        requires
            self.wf(),
        ensures
            r == self.spec_contains_region(addr as int, size as int),
    {
        if addr < self.start {
            return false;
        }
        if size > self.size {
            return false;
        }
        // addr - start <= self.size - size  <=>  addr + size <= start + self.size
        addr - self.start <= self.size - size
    }
}

/// Which emulation routine serves a trapped region. The routines themselves
/// are external collaborators; the core only routes to them.
#[derive(Clone, Copy, Debug, PartialEq, Eq, Structural)]
pub enum MMIOHandler {
    /// GICv3 distributor emulation.
    Gicv3Gicd,
    /// GICv3 redistributor emulation for one CPU.
    Gicv3Gicr,
    /// Pass-through of a sub-page region that the page table cannot express.
    Subpage,
    /// Generic pass-through.
    Generic,
}

/// One registered MMIO trap: the region, its handler, and an opaque argument
/// handed back to the handler (a CPU id, or a virtual-to-physical offset).
#[derive(Clone, Copy, Debug, PartialEq, Eq, Structural)]
pub struct MMIOConfig {
    pub region: MMIORegion,
    pub handler: MMIOHandler,
    pub arg: u64,
}

} // verus!

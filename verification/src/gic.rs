use vstd::prelude::*;

verus! {

/// Size of the GICv3 distributor MMIO window.
pub const GICD_SIZE: u64 = 0x10000;

/// Size of one GICv3 redistributor MMIO window.
pub const GICR_SIZE: u64 = 0x20000;

/// Software model of the distributor and signal state the core touches:
/// per-interrupt routing values, enable/active bits (32 words of 32
/// interrupts each), the ordered log of forwarded SGI-generation writes, and
/// the index of the last discovered redistributor. A real machine's register
/// file stands behind this model; the embedding runtime performs the
/// volatile accesses.
#[derive(Debug)]
pub struct GicState {
    pub irouter: Vec<u64>,
    pub enabled: Vec<u32>,
    pub active: Vec<u32>,
    pub sgi_writes: Vec<u64>,
    pub last_gicr: Option<u64>,
}

impl GicState {
    pub open spec fn wf(self) -> bool {
        &&& self.irouter@.len() == 1024
        &&& self.enabled@.len() == 32
        &&& self.active@.len() == 32
    }

    /// A fresh model with all routing, enable and active state zero and no
    /// signal forwarded yet.
    pub fn new() -> (r: Self)
        ensures
            r.wf(),
            forall|i: int| 0 <= i < 1024 ==> r.irouter@[i] == 0,
            forall|i: int| 0 <= i < 32 ==> r.enabled@[i] == 0 && r.active@[i] == 0,
            r.sgi_writes@ == Seq::<u64>::empty(),
            r.last_gicr is None,
    {
        let mut irouter: Vec<u64> = Vec::new();
        let mut i: usize = 0;
        while i < 1024
            invariant
                i <= 1024,
                irouter@.len() == i,
                forall|j: int| 0 <= j < i ==> irouter@[j] == 0,
            decreases 1024 - i,
        {
            irouter.push(0);
            i = i + 1;
        }
        let mut enabled: Vec<u32> = Vec::new();
        let mut active: Vec<u32> = Vec::new();
        let mut k: usize = 0;
        while k < 32
            invariant
                k <= 32,
                enabled@.len() == k,
                active@.len() == k,
                forall|j: int| 0 <= j < k ==> enabled@[j] == 0 && active@[j] == 0,
            decreases 32 - k,
        {
            enabled.push(0);
            active.push(0);
            k = k + 1;
        }
        GicState { irouter, enabled, active, sgi_writes: Vec::new(), last_gicr: None }
    }

    /// Read the routing register of interrupt `irq`.
    pub fn read_irouter(&self, irq: u64) -> (r: u64)
        requires
            self.wf(),
            irq < 1024,
        ensures
            r == self.irouter@[irq as int],
    {
        self.irouter[irq as usize]
    }

    /// Write the routing register of interrupt `irq`.
    pub fn write_irouter(&mut self, irq: u64, val: u64)
        requires
            old(self).wf(),
            irq < 1024,
        ensures
            final(self).wf(),
            final(self).irouter@ == old(self).irouter@.update(irq as int, val),
            final(self).enabled@ == old(self).enabled@,
            final(self).active@ == old(self).active@,
            final(self).sgi_writes@ == old(self).sgi_writes@,
            final(self).last_gicr == old(self).last_gicr,
    {
        self.irouter[irq as usize] = val;
    }

    /// Write `mask` to clear-enable word `idx`: every set bit of `mask`
    /// disables the corresponding interrupt.
    pub fn write_icenabler(&mut self, idx: usize, mask: u32)
        requires
            old(self).wf(),
            idx < 32,
        ensures
            final(self).wf(),
            final(self).enabled@ == old(self).enabled@.update(
                idx as int,
                old(self).enabled@[idx as int] & !mask,
            ),
            final(self).irouter@ == old(self).irouter@,
            final(self).active@ == old(self).active@,
            final(self).sgi_writes@ == old(self).sgi_writes@,
            final(self).last_gicr == old(self).last_gicr,
    {
        let w: u32 = self.enabled[idx];
        self.enabled[idx] = w & !mask;
    }

    /// Write `mask` to clear-active word `idx`: every set bit of `mask`
    /// deactivates the corresponding interrupt.
    pub fn write_icactiver(&mut self, idx: usize, mask: u32)
        requires
            old(self).wf(),
            idx < 32,
        ensures
            final(self).wf(),
            final(self).active@ == old(self).active@.update(
                idx as int,
                old(self).active@[idx as int] & !mask,
            ),
            final(self).irouter@ == old(self).irouter@,
            final(self).enabled@ == old(self).enabled@,
            final(self).sgi_writes@ == old(self).sgi_writes@,
            final(self).last_gicr == old(self).last_gicr,
    {
        let w: u32 = self.active[idx];
        self.active[idx] = w & !mask;
    }

    /// Forward a raw SGI-generation value to the interrupt controller.
    pub fn send_sgi(&mut self, val: u64)
        requires
            old(self).wf(),
        ensures
            final(self).wf(),
            final(self).sgi_writes@ == old(self).sgi_writes@.push(val),
            final(self).irouter@ == old(self).irouter@,
            final(self).enabled@ == old(self).enabled@,
            final(self).active@ == old(self).active@,
            final(self).last_gicr == old(self).last_gicr,
    {
        self.sgi_writes.push(val);
    }
}

} // verus!

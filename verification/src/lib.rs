//! Core of a partitioning hypervisor for AArch64: trap/exception dispatch,
//! PSCI emulation, and cell (partition) management with interrupt-ownership
//! bookkeeping. Hardware state (GIC distributor, per-core registers) is
//! modelled as explicit values handed in by the embedding runtime, so the
//! logic here is verified for every possible machine state.
use vstd::prelude::*;

pub mod barrier;
pub mod bitmap;
pub mod cell;
pub mod config;
pub mod cpuset;
pub mod err;
pub mod exception;
pub mod gic;
pub mod memory;
pub mod mmio;
pub mod percpu;

verus! {

/// Boot entry stub: the hardware bring-up (register setup, page tables,
/// image loading) is performed by the embedding runtime; this reports a
/// successful hand-off.
pub fn boot_hypervisor() -> (r: u8)
    ensures
        r == 0,
{
    0
}

} // verus!

use vstd::prelude::*;

verus! {

/// Errors surfaced by the hypervisor core. Construction-time configuration
/// faults and lookup misses are explicit values rather than silent halts,
/// so an embedding runtime (or a harness) can observe them.
#[derive(Clone, Copy, Debug, PartialEq, Eq, Structural)]
pub enum HvError {
    /// A cell configuration descriptor does not fit in a single page.
    InvalidConfig,
    /// An MMIO region with the same start address is already registered.
    DuplicateMmio,
    /// A memory region overlaps one already present in the address space.
    Overlap,
    /// A lookup (cell id, mapped region) found nothing.
    NotFound,
    /// The registry's root cell was already initialized.
    AlreadyInitialized,
    /// No CPU of the root configuration declares a redistributor base.
    NoRedistributor,
}

pub type HvResult<T = ()> = Result<T, HvError>;

} // verus!

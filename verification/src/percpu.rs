use vstd::prelude::*;

verus! {

/// The affinity-to-identifier projection of an MPIDR value: Aff3..Aff0
/// with the reserved byte masked out.
pub open spec fn spec_mpidr_to_cpuid(mpidr: u64) -> u64 {
    mpidr & 0xff00ffffff
}

/// Extract the CPU identifier encoded in an MPIDR register value.
pub fn mpidr_to_cpuid(mpidr: u64) -> (r: u64)
    ensures
        r == spec_mpidr_to_cpuid(mpidr),
{
    mpidr & 0xff00ffffff
}

/// Per-core state the trap handlers consult: the core's logical id, its
/// architectural id (MPIDR), its redistributor base, and the flag raised
/// while the core waits in the PSCI power-off state.
#[derive(Clone, Copy, Debug, PartialEq, Eq, Structural)]
pub struct PerCpu {
    pub id: u64,
    pub mpidr: u64,
    pub gicr_base: u64,
    pub wait_for_poweron: bool,
}

/// All cores' state, indexed by logical CPU id.
#[derive(Debug)]
pub struct PerCpuList {
    pub cpus: Vec<PerCpu>,
}

impl PerCpuList {
    /// Ids are the indices, and each core's MPIDR projects back onto its id
    /// (a single-cluster affinity layout).
    pub open spec fn wf(self) -> bool {
        forall|i: int| 0 <= i < self.cpus@.len()
            ==> (#[trigger] self.cpus@[i]).id == i
                && spec_mpidr_to_cpuid(self.cpus@[i].mpidr) == i
    }

    pub open spec fn spec_len(self) -> int {
        self.cpus@.len() as int
    }

    /// The power-off-wait flag of core `cpu`.
    pub open spec fn spec_waiting(self, cpu: int) -> bool {
        self.cpus@[cpu].wait_for_poweron
    }

    pub fn len(&self) -> (r: usize)
        ensures
            r == self.spec_len(),
    {
        self.cpus.len()
    }

    /// Read one core's state.
    pub fn get_cpu_data(&self, cpu: u64) -> (r: &PerCpu)
        requires
            0 <= cpu < self.spec_len(),
        ensures
            *r == self.cpus@[cpu as int],
    {
        let n: usize = self.cpus.len();
        proof {
            assert(cpu < n);
        }
        &self.cpus[cpu as usize]
    }

    /// Raise or clear one core's power-off-wait flag.
    pub fn set_wait_for_poweron(&mut self, cpu: u64, val: bool)
        requires
            0 <= cpu < old(self).spec_len(),
        ensures
            final(self).cpus@ == old(self).cpus@.update(
                cpu as int,
                PerCpu { wait_for_poweron: val, ..old(self).cpus@[cpu as int] },
            ),
            old(self).wf() ==> final(self).wf(),
    {
        let n: usize = self.cpus.len();
        proof {
            assert(cpu < n);
        }
        let idx: usize = cpu as usize;
        let c: PerCpu = self.cpus[idx];
        self.cpus[idx] = PerCpu { wait_for_poweron: val, ..c };
        proof {
            if old(self).wf() {
                assert forall|i: int| 0 <= i < self.cpus@.len()
                    implies (#[trigger] self.cpus@[i]).id == i
                        && spec_mpidr_to_cpuid(self.cpus@[i].mpidr) == i by {
                    if i != cpu {
                        assert(self.cpus@[i] == old(self).cpus@[i]);
                    }
                }
            }
        }
    }
}

} // verus!

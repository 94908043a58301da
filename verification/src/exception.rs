use vstd::prelude::*;

use crate::gic::GicState;
use crate::percpu::{PerCpu, PerCpuList};

verus! {

/// Exit reasons handed over by the trap trampoline.
pub const EXIT_REASON_EL2_ABORT: u64 = 0x0;

pub const EXIT_REASON_EL2_IRQ: u64 = 0x1;

pub const EXIT_REASON_EL1_ABORT: u64 = 0x2;

pub const EXIT_REASON_EL1_IRQ: u64 = 0x3;

/// Exception-class values of the syndrome register's EC field.
pub const EC_HVC64: u64 = 0x16;

pub const EC_SMC64: u64 = 0x17;

pub const EC_TRAPPED_MSR_MRS: u64 = 0x18;

pub const EC_IABT_LOWER_EL: u64 = 0x20;

pub const EC_DABT_LOWER_EL: u64 = 0x24;

/// The service-class field of an SMC call code.
pub const SMC_TYPE_MASK: u64 = 0x3F000000;

/// The standard secure-service class (PSCI lives here).
pub const SMC_TYPE_STANDARD_SC: u64 = 0x4000000;

/// PSCI function identifiers.
pub const PSCI_CPU_OFF_32: u64 = 0x84000002;

pub const PSCI_AFFINITY_INFO_32: u64 = 0x84000004;

pub const PSCI_AFFINITY_INFO_64: u64 = 0xc4000004;

/// The exception class encoded in a syndrome value.
pub open spec fn spec_esr_ec(esr: u64) -> u64 {
    (esr >> 26) & 0x3f
}

/// The instruction-length bit of a syndrome value.
pub open spec fn spec_esr_il(esr: u64) -> u64 {
    (esr >> 25) & 1
}

/// The byte length of the trapped instruction: 2 when the length bit is
/// clear (a 16-bit instruction), 4 when it is set.
pub open spec fn spec_instr_len(esr: u64) -> u64 {
    if spec_esr_il(esr) == 0 {
        2u64
    } else {
        4u64
    }
}

/// The source register index of a trapped system-register access.
pub open spec fn spec_sysreg_rt(esr: u64) -> u64 {
    (esr >> 5) & 0x1f
}

/// The destination-core affinity field of an SGI-generation value.
pub open spec fn spec_sgi_target(val: u64) -> u64 {
    (val >> 16) & 0xff
}

/// An SGI write is suppressed when its target core is parked in the PSCI
/// power-off wait state.
pub open spec fn spec_sgi_suppressed(cpus: PerCpuList, val: u64) -> bool {
    spec_sgi_target(val) < cpus.spec_len() && cpus.spec_waiting(spec_sgi_target(val) as int)
}

/// The faulting address reconstructed from the two fault-address registers.
pub open spec fn spec_fault_addr(hpfar: u64, far: u64) -> u64 {
    (hpfar << 8) | (far & 0xfff)
}

/// The saved general-purpose register block of the interrupted core, plus
/// the exit reason the trampoline recorded (32 slots, as saved on the trap
/// stack).
#[derive(Debug)]
pub struct GeneralRegisters {
    pub usr: [u64; 32],
    pub exit_reason: u64,
}

/// The snapshot of the control registers read at trap entry: syndrome,
/// saved state, return address, and the two fault-address registers. A
/// handler mutates `elr` to retire the trapped instruction; the embedding
/// runtime writes it back before resuming the guest.
#[derive(Debug)]
pub struct TrapFrame {
    pub esr: u64,
    pub spsr: u64,
    pub elr: u64,
    pub hpfar: u64,
    pub far: u64,
}

impl TrapFrame {
    /// Capture a trap-entry snapshot.
    pub fn new(esr: u64, spsr: u64, elr: u64, hpfar: u64, far: u64) -> (r: Self)
        ensures
            r == (TrapFrame { esr, spsr, elr, hpfar, far }),
    {
        TrapFrame { esr, spsr, elr, hpfar, far }
    }
}

/// What the trap cycle asks the embedding runtime to do next. The fatal
/// cases are explicit outcomes, observable by a harness, instead of an
/// unobservable spin.
#[derive(Clone, Copy, Debug, PartialEq, Eq, Structural)]
pub enum TrapOutcome {
    /// Return to guest context.
    Resume,
    /// Park the core in a low-power wait until it is woken, then resume.
    Park,
    /// Fatal: halt this core permanently.
    Halt,
    /// Forward the decoded call to the hypercall engine, then resume.
    Hypercall { code: u64, arg0: u64, arg1: u64 },
    /// Acknowledge the pending interrupt at the controller, then resume.
    IrqAck,
}

/// Whether a service call was emulated or only logged as unsupported.
#[derive(Clone, Copy, Debug, PartialEq, Eq, Structural)]
pub enum ServiceDisposition {
    Handled,
    Unsupported,
}

/// `frame` keeps everything but the return address.
pub open spec fn spec_frame_eq_except_elr(a: TrapFrame, b: TrapFrame) -> bool {
    &&& a.esr == b.esr
    &&& a.spsr == b.spsr
    &&& a.hpfar == b.hpfar
    &&& a.far == b.far
}

/// The register block after a PSCI call: `AFFINITY_INFO` answers in the
/// first argument register with the target core's power-off-wait flag as 0
/// or 1; no other call writes a register.
pub open spec fn spec_psci_regs_after(
    regs: GeneralRegisters,
    cpus: PerCpuList,
    code: u64,
    arg0: u64,
) -> Seq<u64> {
    if code == PSCI_AFFINITY_INFO_32 || code == PSCI_AFFINITY_INFO_64 {
        regs.usr@.update(
            0,
            if cpus.spec_waiting(arg0 as int) {
                1u64
            } else {
                0u64
            },
        )
    } else {
        regs.usr@
    }
}

/// The per-core state after a PSCI call: `CPU_OFF` raises the calling
/// core's power-off-wait flag; no other call touches it.
pub open spec fn spec_psci_cpus_after(cpus: PerCpuList, this_cpu: u64, code: u64) -> Seq<PerCpu> {
    if code == PSCI_CPU_OFF_32 {
        cpus.cpus@.update(
            this_cpu as int,
            PerCpu { wait_for_poweron: true, ..cpus.cpus@[this_cpu as int] },
        )
    } else {
        cpus.cpus@
    }
}

/// The outcome of a PSCI call: `CPU_OFF` parks the core, the rest resume;
/// an unknown standard-service code is only logged as unsupported.
pub open spec fn spec_psci_outcome(code: u64) -> (TrapOutcome, ServiceDisposition) {
    if code == PSCI_CPU_OFF_32 {
        (TrapOutcome::Park, ServiceDisposition::Handled)
    } else if code == PSCI_AFFINITY_INFO_32 || code == PSCI_AFFINITY_INFO_64 {
        (TrapOutcome::Resume, ServiceDisposition::Handled)
    } else {
        (TrapOutcome::Resume, ServiceDisposition::Unsupported)
    }
}

/// Retire the trapped instruction: advance the saved return address by the
/// decoded instruction length—exactly 2 when the length bit is 0, exactly 4
/// when it is 1, for every syndrome value. This is the only way a trapped
/// but emulated instruction completes; skipping it would re-trap forever.
pub fn arch_skip_instruction(frame: &mut TrapFrame)
    requires
        old(frame).elr + spec_instr_len(old(frame).esr) <= u64::MAX,
    ensures
        final(frame).elr == old(frame).elr + spec_instr_len(old(frame).esr),
        spec_frame_eq_except_elr(*final(frame), *old(frame)),
{
    let il = (frame.esr >> 25) & 1;
    let ins: u64 = if il == 0 {
        2
    } else {
        4
    };
    frame.elr = frame.elr + ins;
}

/// Decode a hypercall: hand the call code and two arguments to the
/// hypercall engine (an external collaborator); the engine retires the
/// instruction itself.
pub fn handle_hvc(frame: &TrapFrame, regs: &GeneralRegisters) -> (r: TrapOutcome)
    ensures
        r == (TrapOutcome::Hypercall {
            code: regs.usr@[0],
            arg0: regs.usr@[1],
            arg1: regs.usr@[2],
        }),
{
    let code = regs.usr[0];
    let arg0 = regs.usr[1];
    let arg1 = regs.usr[2];
    TrapOutcome::Hypercall { code, arg0, arg1 }
}

/// Emulate one PSCI call: `CPU_OFF` parks the calling core with its wait
/// flag raised; `AFFINITY_INFO` (32- or 64-bit) returns the addressed
/// core's power-off-wait flag as 0 or 1, whoever the caller is; any other
/// standard-service code is reported unsupported with no effect.
pub fn handle_psci(
    cpus: &mut PerCpuList,
    regs: &mut GeneralRegisters,
    this_cpu: u64,
    code: u64,
    arg0: u64,
    _arg1: u64,
    _arg2: u64,
) -> (r: (TrapOutcome, ServiceDisposition))
    requires
        this_cpu < old(cpus).spec_len(),
        (code == PSCI_AFFINITY_INFO_32 || code == PSCI_AFFINITY_INFO_64)
            ==> arg0 < old(cpus).spec_len(),
    ensures
        final(regs).usr@ == spec_psci_regs_after(*old(regs), *old(cpus), code, arg0),
        final(regs).exit_reason == old(regs).exit_reason,
        final(cpus).cpus@ == spec_psci_cpus_after(*old(cpus), this_cpu, code),
        r == spec_psci_outcome(code),
        old(cpus).wf() ==> final(cpus).wf(),
{
    if code == PSCI_CPU_OFF_32 {
        cpus.set_wait_for_poweron(this_cpu, true);
        (TrapOutcome::Park, ServiceDisposition::Handled)
    } else if code == PSCI_AFFINITY_INFO_32 || code == PSCI_AFFINITY_INFO_64 {
        let waiting = cpus.get_cpu_data(arg0).wait_for_poweron;
        regs.usr[0] = if waiting {
            1
        } else {
            0
        };
        (TrapOutcome::Resume, ServiceDisposition::Handled)
    } else {
        (TrapOutcome::Resume, ServiceDisposition::Unsupported)
    }
}

/// Handle a secure monitor call: only the standard secure-service class is
/// emulated (PSCI); every other class is reported unsupported with no
/// effect. Either way the SMC instruction is retired—the guest must never
/// stall on an unsupported call.
pub fn handle_smc(
    frame: &mut TrapFrame,
    regs: &mut GeneralRegisters,
    cpus: &mut PerCpuList,
    this_cpu: u64,
) -> (r: (TrapOutcome, ServiceDisposition))
    requires
        this_cpu < old(cpus).spec_len(),
        old(frame).elr + spec_instr_len(old(frame).esr) <= u64::MAX,
        (old(regs).usr@[0] & SMC_TYPE_MASK == SMC_TYPE_STANDARD_SC && (old(regs).usr@[0]
            == PSCI_AFFINITY_INFO_32 || old(regs).usr@[0] == PSCI_AFFINITY_INFO_64))
            ==> old(regs).usr@[1] < old(cpus).spec_len(),
    ensures
        spec_frame_eq_except_elr(*final(frame), *old(frame)),
        final(frame).elr == old(frame).elr + spec_instr_len(old(frame).esr),
        final(regs).exit_reason == old(regs).exit_reason,
        old(regs).usr@[0] & SMC_TYPE_MASK == SMC_TYPE_STANDARD_SC ==> {
            &&& final(regs).usr@ == spec_psci_regs_after(
                *old(regs),
                *old(cpus),
                old(regs).usr@[0],
                old(regs).usr@[1],
            )
            &&& final(cpus).cpus@ == spec_psci_cpus_after(
                *old(cpus),
                this_cpu,
                old(regs).usr@[0],
            )
            &&& r == spec_psci_outcome(old(regs).usr@[0])
        },
        old(regs).usr@[0] & SMC_TYPE_MASK != SMC_TYPE_STANDARD_SC ==> {
            &&& final(regs).usr@ == old(regs).usr@
            &&& final(cpus).cpus@ == old(cpus).cpus@
            &&& r == (TrapOutcome::Resume, ServiceDisposition::Unsupported)
        },
        old(cpus).wf() ==> final(cpus).wf(),
{
    let code = regs.usr[0];
    let arg0 = regs.usr[1];
    let arg1 = regs.usr[2];
    let arg2 = regs.usr[3];
    let r = if code & SMC_TYPE_MASK == SMC_TYPE_STANDARD_SC {
        handle_psci(cpus, regs, this_cpu, code, arg0, arg1, arg2)
    } else {
        // Unsupported service class: log-only, no PSCI effect.
        (TrapOutcome::Resume, ServiceDisposition::Unsupported)
    };
    arch_skip_instruction(frame);
    r
}

/// Proxy a trapped system-register write that would raise an SGI: extract
/// the written value; if its destination core is parked in the PSCI
/// power-off wait, suppress the physical write (the parked core must not be
/// woken by a side channel), otherwise forward the raw value. The trapped
/// write is retired either way.
pub fn handle_sysreg(
    frame: &mut TrapFrame,
    regs: &GeneralRegisters,
    cpus: &PerCpuList,
    gic: &mut GicState,
) -> (r: TrapOutcome)
    requires
        old(frame).elr + spec_instr_len(old(frame).esr) <= u64::MAX,
        old(gic).wf(),
    ensures
        spec_frame_eq_except_elr(*final(frame), *old(frame)),
        final(frame).elr == old(frame).elr + spec_instr_len(old(frame).esr),
        final(gic).wf(),
        final(gic).sgi_writes@ == if spec_sgi_suppressed(
            *cpus,
            regs.usr@[spec_sysreg_rt(old(frame).esr) as int],
        ) {
            old(gic).sgi_writes@
        } else {
            old(gic).sgi_writes@.push(regs.usr@[spec_sysreg_rt(old(frame).esr) as int])
        },
        final(gic).irouter@ == old(gic).irouter@,
        final(gic).enabled@ == old(gic).enabled@,
        final(gic).active@ == old(gic).active@,
        final(gic).last_gicr == old(gic).last_gicr,
        r == TrapOutcome::Resume,
{
    let rt = (frame.esr >> 5) & 0x1f;
    proof {
        let e = frame.esr;
        assert((e >> 5) & 0x1f < 32) by (bit_vector);
    }
    let val = regs.usr[rt as usize];
    let target = (val >> 16) & 0xff;
    let parked = target < cpus.len() as u64 && cpus.get_cpu_data(target).wait_for_poweron;
    if !parked {
        gic.send_sgi(val);
    }
    arch_skip_instruction(frame);
    TrapOutcome::Resume
}

/// Handle a data abort from a lower exception level: reconstruct the fault
/// address for the log and blind-retire the faulting instruction—an
/// explicit pass-through-unemulated policy.
pub fn handle_dabt(frame: &mut TrapFrame) -> (r: (TrapOutcome, u64))
    requires
        old(frame).elr + spec_instr_len(old(frame).esr) <= u64::MAX,
    ensures
        spec_frame_eq_except_elr(*final(frame), *old(frame)),
        final(frame).elr == old(frame).elr + spec_instr_len(old(frame).esr),
        r.0 == TrapOutcome::Resume,
        r.1 == spec_fault_addr(old(frame).hpfar, old(frame).far),
    {
    let address = (frame.hpfar << 8) | (frame.far & 0xfff);
    arch_skip_instruction(frame);
    (TrapOutcome::Resume, address)
}

/// Handle an instruction abort from a lower exception level: currently
/// unrecoverable—the core halts before any retirement, a known gap of the
/// abort handling rather than a policy.
pub fn handle_iabt(frame: &TrapFrame) -> (r: (TrapOutcome, u64))
    ensures
        r.0 == TrapOutcome::Halt,
        r.1 == spec_fault_addr(frame.hpfar, frame.far),
{
    let address = (frame.hpfar << 8) | (frame.far & 0xfff);
    (TrapOutcome::Halt, address)
}

/// The EL1 interrupt path: the physical controller's acknowledgment code
/// runs in the embedding runtime.
pub fn irqchip_handle_irq1() -> (r: TrapOutcome)
    ensures
        r == TrapOutcome::IrqAck,
{
    TrapOutcome::IrqAck
}

/// An EL2-sourced interrupt is unexpected in steady state: fatal.
pub fn irqchip_handle_irq2() -> (r: TrapOutcome)
    ensures
        r == TrapOutcome::Halt,
{
    TrapOutcome::Halt
}

/// An unsupported exit is fatal: the core halts loudly instead of limping.
pub fn arch_dump_exit(_reason: u64) -> (r: TrapOutcome)
    ensures
        r == TrapOutcome::Halt,
{
    TrapOutcome::Halt
}

/// The full state transition of one EL1 synchronous trap, as a relation
/// between the machine state before and after and the outcome.
pub open spec fn spec_trap_transition(
    f0: TrapFrame,
    f1: TrapFrame,
    r0: GeneralRegisters,
    r1: GeneralRegisters,
    c0: PerCpuList,
    c1: PerCpuList,
    g0: GicState,
    g1: GicState,
    this_cpu: u64,
    outcome: TrapOutcome,
) -> bool {
    let ec = spec_esr_ec(f0.esr);
    let code = r0.usr@[0];
    if ec == EC_HVC64 {
        f1 == f0 && r1.usr@ == r0.usr@ && r1.exit_reason == r0.exit_reason && c1.cpus@ == c0.cpus@
            && g1 == g0 && outcome == (TrapOutcome::Hypercall {
            code,
            arg0: r0.usr@[1],
            arg1: r0.usr@[2],
        })
    } else if ec == EC_SMC64 {
        &&& spec_frame_eq_except_elr(f1, f0)
        &&& f1.elr == f0.elr + spec_instr_len(f0.esr)
        &&& r1.exit_reason == r0.exit_reason
        &&& g1 == g0
        &&& if code & SMC_TYPE_MASK == SMC_TYPE_STANDARD_SC {
            r1.usr@ == spec_psci_regs_after(r0, c0, code, r0.usr@[1]) && c1.cpus@
                == spec_psci_cpus_after(c0, this_cpu, code) && outcome == spec_psci_outcome(
                code,
            ).0
        } else {
            r1.usr@ == r0.usr@ && c1.cpus@ == c0.cpus@ && outcome == TrapOutcome::Resume
        }
    } else if ec == EC_TRAPPED_MSR_MRS {
        &&& spec_frame_eq_except_elr(f1, f0)
        &&& f1.elr == f0.elr + spec_instr_len(f0.esr)
        &&& r1.usr@ == r0.usr@ && r1.exit_reason == r0.exit_reason
        &&& c1.cpus@ == c0.cpus@
        &&& g1.sgi_writes@ == if spec_sgi_suppressed(c0, r0.usr@[spec_sysreg_rt(f0.esr) as int]) {
            g0.sgi_writes@
        } else {
            g0.sgi_writes@.push(r0.usr@[spec_sysreg_rt(f0.esr) as int])
        }
        &&& g1.irouter@ == g0.irouter@ && g1.enabled@ == g0.enabled@ && g1.active@ == g0.active@
            && g1.last_gicr == g0.last_gicr
        &&& outcome == TrapOutcome::Resume
    } else if ec == EC_DABT_LOWER_EL {
        &&& spec_frame_eq_except_elr(f1, f0)
        &&& f1.elr == f0.elr + spec_instr_len(f0.esr)
        &&& r1.usr@ == r0.usr@ && r1.exit_reason == r0.exit_reason
        &&& c1.cpus@ == c0.cpus@ && g1 == g0
        &&& outcome == TrapOutcome::Resume
    } else {
        // Instruction aborts and unknown classes halt without retiring.
        f1 == f0 && r1.usr@ == r0.usr@ && r1.exit_reason == r0.exit_reason && c1.cpus@ == c0.cpus@
            && g1 == g0 && outcome == TrapOutcome::Halt
    }
}

/// The preconditions under which an EL1 synchronous trap can be handled
/// without machine-limit surprises: return-address headroom on the paths
/// that retire, and PSCI target validity where a core is addressed.
pub open spec fn spec_trap_requires(
    f0: TrapFrame,
    r0: GeneralRegisters,
    c0: PerCpuList,
    this_cpu: u64,
) -> bool {
    let ec = spec_esr_ec(f0.esr);
    &&& this_cpu < c0.spec_len()
    &&& ((ec == EC_SMC64 || ec == EC_TRAPPED_MSR_MRS || ec == EC_DABT_LOWER_EL) ==> f0.elr
        + spec_instr_len(f0.esr) <= u64::MAX)
    &&& ((ec == EC_SMC64 && r0.usr@[0] & SMC_TYPE_MASK == SMC_TYPE_STANDARD_SC && (r0.usr@[0]
        == PSCI_AFFINITY_INFO_32 || r0.usr@[0] == PSCI_AFFINITY_INFO_64)) ==> r0.usr@[1]
        < c0.spec_len())
}

/// Decode the exception class of an EL1 synchronous trap and dispatch
/// exactly one handler. Hypercalls and secure monitor calls are emulated,
/// trapped SGI writes are proxied, data aborts pass through, and anything
/// else halts the core.
pub fn arch_handle_trap(
    frame: &mut TrapFrame,
    regs: &mut GeneralRegisters,
    cpus: &mut PerCpuList,
    gic: &mut GicState,
    this_cpu: u64,
) -> (outcome: TrapOutcome)
    requires
        old(gic).wf(),
        spec_trap_requires(*old(frame), *old(regs), *old(cpus), this_cpu),
    ensures
        final(gic).wf(),
        old(cpus).wf() ==> final(cpus).wf(),
        spec_trap_transition(
            *old(frame),
            *final(frame),
            *old(regs),
            *final(regs),
            *old(cpus),
            *final(cpus),
            *old(gic),
            *final(gic),
            this_cpu,
            outcome,
        ),
{
    let ec = (frame.esr >> 26) & 0x3f;
    if ec == EC_HVC64 {
        handle_hvc(frame, regs)
    } else if ec == EC_SMC64 {
        let r = handle_smc(frame, regs, cpus, this_cpu);
        r.0
    } else if ec == EC_TRAPPED_MSR_MRS {
        handle_sysreg(frame, regs, cpus, gic)
    } else if ec == EC_DABT_LOWER_EL {
        let r = handle_dabt(frame);
        r.0
    } else if ec == EC_IABT_LOWER_EL {
        let r = handle_iabt(frame);
        r.0
    } else {
        // Unsupported exception class: fatal, a deliberate current limit.
        TrapOutcome::Halt
    }
}

/// The dispatcher: classify the exit reason of a trapped core and run
/// exactly one handler. The returned outcome is the terminal action of the
/// trap cycle—the embedding runtime resumes, parks, or halts the core
/// accordingly and never returns here.
pub fn arch_handle_exit(
    regs: &mut GeneralRegisters,
    frame: &mut TrapFrame,
    cpus: &mut PerCpuList,
    gic: &mut GicState,
    this_cpu: u64,
) -> (outcome: TrapOutcome)
    requires
        old(gic).wf(),
        old(regs).exit_reason == EXIT_REASON_EL1_ABORT ==> spec_trap_requires(
            *old(frame),
            *old(regs),
            *old(cpus),
            this_cpu,
        ),
    ensures
        final(gic).wf(),
        old(cpus).wf() ==> final(cpus).wf(),
        final(regs).exit_reason == old(regs).exit_reason,
        old(regs).exit_reason == EXIT_REASON_EL1_ABORT ==> spec_trap_transition(
            *old(frame),
            *final(frame),
            *old(regs),
            *final(regs),
            *old(cpus),
            *final(cpus),
            *old(gic),
            *final(gic),
            this_cpu,
            outcome,
        ),
        old(regs).exit_reason == EXIT_REASON_EL1_IRQ ==> {
            &&& outcome == TrapOutcome::IrqAck
            &&& *final(frame) == *old(frame)
            &&& final(regs).usr@ == old(regs).usr@
            &&& final(cpus).cpus@ == old(cpus).cpus@
            &&& *final(gic) == *old(gic)
        },
        (old(regs).exit_reason != EXIT_REASON_EL1_ABORT && old(regs).exit_reason
            != EXIT_REASON_EL1_IRQ) ==> {
            &&& outcome == TrapOutcome::Halt
            &&& *final(frame) == *old(frame)
            &&& final(regs).usr@ == old(regs).usr@
            &&& final(cpus).cpus@ == old(cpus).cpus@
            &&& *final(gic) == *old(gic)
        },
{
    let reason = regs.exit_reason;
    if reason == EXIT_REASON_EL1_IRQ {
        irqchip_handle_irq1()
    } else if reason == EXIT_REASON_EL1_ABORT {
        arch_handle_trap(frame, regs, cpus, gic, this_cpu)
    } else if reason == EXIT_REASON_EL2_ABORT {
        arch_dump_exit(reason)
    } else if reason == EXIT_REASON_EL2_IRQ {
        irqchip_handle_irq2()
    } else {
        arch_dump_exit(reason)
    }
}

} // verus!

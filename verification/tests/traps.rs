use hvcore::exception::{
    arch_handle_exit, arch_handle_trap, arch_skip_instruction, handle_dabt, handle_hvc,
    handle_iabt, handle_psci, handle_smc, handle_sysreg, ServiceDisposition, TrapFrame,
    TrapOutcome, GeneralRegisters, EC_DABT_LOWER_EL, EC_HVC64, EC_IABT_LOWER_EL, EC_SMC64,
    EC_TRAPPED_MSR_MRS, EXIT_REASON_EL1_ABORT, EXIT_REASON_EL1_IRQ, EXIT_REASON_EL2_ABORT,
    EXIT_REASON_EL2_IRQ, PSCI_AFFINITY_INFO_32, PSCI_AFFINITY_INFO_64, PSCI_CPU_OFF_32,
};
use hvcore::gic::GicState;
use hvcore::percpu::{PerCpu, PerCpuList};

fn cpu_list(n: u64) -> PerCpuList {
    let mut cpus = Vec::new();
    for i in 0..n {
        cpus.push(PerCpu { id: i, mpidr: i, gicr_base: 0, wait_for_poweron: false });
    }
    PerCpuList { cpus }
}

fn esr(ec: u64, il: u64) -> u64 {
    (ec << 26) | (il << 25)
}

fn frame(esr_val: u64, elr: u64) -> TrapFrame {
    TrapFrame::new(esr_val, 0x3c5, elr, 0, 0)
}

fn regs(exit_reason: u64) -> GeneralRegisters {
    GeneralRegisters { usr: [0u64; 32], exit_reason }
}

#[test]
fn retirement_advances_by_decoded_length() {
    // Length bit 0: a 16-bit instruction, advance by exactly 2.
    let mut f = frame(esr(EC_SMC64, 0), 0x8000_0100);
    arch_skip_instruction(&mut f);
    assert_eq!(f.elr, 0x8000_0102);
    // Length bit 1: a 32-bit instruction, advance by exactly 4.
    let mut f = frame(esr(EC_SMC64, 1), 0x8000_0100);
    arch_skip_instruction(&mut f);
    assert_eq!(f.elr, 0x8000_0104);
    // The rest of the snapshot is untouched.
    assert_eq!(f.esr, esr(EC_SMC64, 1));
    assert_eq!(f.spsr, 0x3c5);
}

#[test]
fn cpu_off_parks_and_affinity_info_sees_it() {
    let mut cpus = cpu_list(4);
    // Core 1 executes PSCI CPU_OFF.
    let mut f = frame(esr(EC_SMC64, 1), 0x1000);
    let mut r = regs(EXIT_REASON_EL1_ABORT);
    r.usr[0] = PSCI_CPU_OFF_32;
    let (outcome, disp) = handle_smc(&mut f, &mut r, &mut cpus, 1);
    assert_eq!(outcome, TrapOutcome::Park);
    assert_eq!(disp, ServiceDisposition::Handled);
    assert!(cpus.cpus[1].wait_for_poweron);
    assert_eq!(f.elr, 0x1004); // still retired

    // A different core polls it with the 64-bit AFFINITY_INFO.
    let mut f2 = frame(esr(EC_SMC64, 1), 0x2000);
    let mut r2 = regs(EXIT_REASON_EL1_ABORT);
    r2.usr[0] = PSCI_AFFINITY_INFO_64;
    r2.usr[1] = 1;
    let (outcome, disp) = handle_smc(&mut f2, &mut r2, &mut cpus, 0);
    assert_eq!(outcome, TrapOutcome::Resume);
    assert_eq!(disp, ServiceDisposition::Handled);
    assert_eq!(r2.usr[0], 1);
}

#[test]
fn affinity_info_reports_running_core_as_zero() {
    let mut cpus = cpu_list(2);
    let (outcome, disp) =
        handle_psci(&mut cpus, &mut regs(0), 0, PSCI_AFFINITY_INFO_32, 1, 0, 0);
    assert_eq!(outcome, TrapOutcome::Resume);
    assert_eq!(disp, ServiceDisposition::Handled);
    let mut r = regs(0);
    r.usr[0] = PSCI_AFFINITY_INFO_32;
    r.usr[1] = 1;
    let mut f = frame(esr(EC_SMC64, 1), 0);
    handle_smc(&mut f, &mut r, &mut cpus, 0);
    assert_eq!(r.usr[0], 0);
}

#[test]
fn unknown_standard_service_is_reported_unsupported() {
    let mut cpus = cpu_list(2);
    let mut f = frame(esr(EC_SMC64, 1), 0x1000);
    let mut r = regs(EXIT_REASON_EL1_ABORT);
    r.usr[0] = 0x8400_0001; // CPU_SUSPEND: a standard call the core does not emulate
    let (outcome, disp) = handle_smc(&mut f, &mut r, &mut cpus, 0);
    assert_eq!(outcome, TrapOutcome::Resume);
    assert_eq!(disp, ServiceDisposition::Unsupported);
    assert!(!cpus.cpus[0].wait_for_poweron);
    assert_eq!(f.elr, 0x1004);
}

#[test]
fn unrecognized_service_class_has_no_psci_effect_but_retires() {
    let mut cpus = cpu_list(2);
    let mut f = frame(esr(EC_SMC64, 1), 0x9_0000);
    let mut r = regs(EXIT_REASON_EL1_ABORT);
    r.usr[0] = 0x1234_5678; // service-class mask does not match the standard class
    r.usr[1] = 1;
    let (outcome, disp) = handle_smc(&mut f, &mut r, &mut cpus, 0);
    assert_eq!(outcome, TrapOutcome::Resume);
    assert_eq!(disp, ServiceDisposition::Unsupported);
    // No PSCI effect: registers and per-core state untouched...
    assert_eq!(r.usr[0], 0x1234_5678);
    assert!(!cpus.cpus[0].wait_for_poweron && !cpus.cpus[1].wait_for_poweron);
    // ...and the guest still advances past the SMC instruction.
    assert_eq!(f.elr, 0x9_0004);
}

#[test]
fn hvc_decodes_call_registers() {
    let f = frame(esr(EC_HVC64, 1), 0);
    let mut r = regs(EXIT_REASON_EL1_ABORT);
    r.usr[0] = 9;
    r.usr[1] = 0xabc;
    r.usr[2] = 0xdef;
    let outcome = handle_hvc(&f, &r);
    assert_eq!(outcome, TrapOutcome::Hypercall { code: 9, arg0: 0xabc, arg1: 0xdef });
}

#[test]
fn sgi_write_to_parked_core_is_suppressed() {
    let mut cpus = cpu_list(4);
    cpus.cpus[2].wait_for_poweron = true;
    let mut gic = GicState::new();
    // Trapped write with Rt = 1; the value addresses core 2.
    let mut f = frame(esr(EC_TRAPPED_MSR_MRS, 1) | (1 << 5), 0x500);
    let mut r = regs(EXIT_REASON_EL1_ABORT);
    r.usr[1] = 2 << 16;
    let outcome = handle_sysreg(&mut f, &r, &cpus, &mut gic);
    assert_eq!(outcome, TrapOutcome::Resume);
    assert!(gic.sgi_writes.is_empty()); // suppressed
    assert_eq!(f.elr, 0x504); // still retired
}

#[test]
fn sgi_write_to_running_core_is_forwarded_raw() {
    let cpus = cpu_list(4);
    let mut gic = GicState::new();
    let mut f = frame(esr(EC_TRAPPED_MSR_MRS, 1) | (1 << 5), 0x500);
    let mut r = regs(EXIT_REASON_EL1_ABORT);
    let val = (3 << 16) | (5 << 24); // target core 3, SGI id 5
    r.usr[1] = val;
    handle_sysreg(&mut f, &r, &cpus, &mut gic);
    assert_eq!(gic.sgi_writes, vec![val]);
}

#[test]
fn data_abort_blind_retires_with_fault_address() {
    let mut f = TrapFrame::new(esr(EC_DABT_LOWER_EL, 1), 0, 0x700, 0x123456, 0xfff8abc);
    let (outcome, addr) = handle_dabt(&mut f);
    assert_eq!(outcome, TrapOutcome::Resume);
    assert_eq!(addr, (0x123456 << 8) | 0xabc);
    assert_eq!(f.elr, 0x704);
}

#[test]
fn instruction_abort_halts_without_retiring() {
    let f = TrapFrame::new(esr(EC_IABT_LOWER_EL, 1), 0, 0x700, 0x1, 0x2);
    let (outcome, addr) = handle_iabt(&f);
    assert_eq!(outcome, TrapOutcome::Halt);
    assert_eq!(addr, (0x1 << 8) | 0x2);
    assert_eq!(f.elr, 0x700);
}

#[test]
fn trap_dispatch_selects_by_exception_class() {
    let mut cpus = cpu_list(2);
    let mut gic = GicState::new();

    let mut f = frame(esr(EC_HVC64, 1), 0x100);
    let mut r = regs(EXIT_REASON_EL1_ABORT);
    r.usr[0] = 1;
    let outcome = arch_handle_trap(&mut f, &mut r, &mut cpus, &mut gic, 0);
    assert_eq!(outcome, TrapOutcome::Hypercall { code: 1, arg0: 0, arg1: 0 });
    assert_eq!(f.elr, 0x100); // the engine retires hypercalls itself

    // An exception class the dispatcher does not support is fatal.
    let mut f = frame(esr(0x3f, 1), 0x100);
    let mut r = regs(EXIT_REASON_EL1_ABORT);
    let outcome = arch_handle_trap(&mut f, &mut r, &mut cpus, &mut gic, 0);
    assert_eq!(outcome, TrapOutcome::Halt);
}

#[test]
fn exit_dispatch_selects_by_reason() {
    let mut cpus = cpu_list(2);
    let mut gic = GicState::new();

    let mut f = frame(0, 0);
    let mut r = regs(EXIT_REASON_EL1_IRQ);
    assert_eq!(arch_handle_exit(&mut r, &mut f, &mut cpus, &mut gic, 0), TrapOutcome::IrqAck);

    let mut r = regs(EXIT_REASON_EL2_IRQ);
    assert_eq!(arch_handle_exit(&mut r, &mut f, &mut cpus, &mut gic, 0), TrapOutcome::Halt);

    let mut r = regs(EXIT_REASON_EL2_ABORT);
    assert_eq!(arch_handle_exit(&mut r, &mut f, &mut cpus, &mut gic, 0), TrapOutcome::Halt);

    let mut f = frame(esr(EC_DABT_LOWER_EL, 1), 0x40);
    let mut r = regs(EXIT_REASON_EL1_ABORT);
    assert_eq!(arch_handle_exit(&mut r, &mut f, &mut cpus, &mut gic, 0), TrapOutcome::Resume);
    assert_eq!(f.elr, 0x44);
}

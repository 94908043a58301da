use hvcore::barrier::{poll_counter, BootBarrier, WaitOutcome};
use hvcore::boot_hypervisor;

#[test]
fn boot_entry_reports_success() {
    assert_eq!(boot_hypervisor(), 0);
}

#[test]
fn secondary_waits_until_primary_signals() {
    let mut barrier = BootBarrier::new();
    barrier.enter();
    // The secondary observes the barrier before the primary signals: it
    // keeps spinning.
    assert_eq!(barrier.poll_early(1), WaitOutcome::Spin);
    assert_eq!(barrier.poll_early(1), WaitOutcome::Spin);
    // The primary finishes global setup and raises the counter: the waiter
    // now succeeds.
    barrier.signal_early();
    assert_eq!(barrier.poll_early(1), WaitOutcome::Ready);
}

#[test]
fn error_flag_frees_waiters_with_busy() {
    let mut barrier = BootBarrier::new();
    barrier.enter();
    assert_eq!(barrier.poll_early(1), WaitOutcome::Spin);
    // Some core hits a fatal local error before the signal: the waiter
    // aborts with a busy outcome, never seeing the counter reach target.
    barrier.set_error();
    assert_eq!(barrier.poll_early(1), WaitOutcome::Busy);
    assert_eq!(barrier.poll_late(1), WaitOutcome::Busy);
}

#[test]
fn a_reached_target_wins_over_the_error_flag() {
    // Once the counter has reached the target, a waiter proceeds even if
    // the error flag was raised afterwards.
    assert_eq!(poll_counter(2, 2, true), WaitOutcome::Ready);
    assert_eq!(poll_counter(3, 2, false), WaitOutcome::Ready);
    assert_eq!(poll_counter(0, 1, true), WaitOutcome::Busy);
    assert_eq!(poll_counter(0, 1, false), WaitOutcome::Spin);
}

#[test]
fn late_init_gates_the_same_way() {
    let mut barrier = BootBarrier::new();
    assert_eq!(barrier.poll_late(1), WaitOutcome::Spin);
    barrier.signal_late();
    assert_eq!(barrier.poll_late(1), WaitOutcome::Ready);
    assert_eq!(barrier.entered, 0);
    assert_eq!(barrier.early_done, 0);
}

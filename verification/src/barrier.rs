use vstd::prelude::*;

verus! {

/// What a spinning core should do after observing the barrier state once.
#[derive(Clone, Copy, Debug, PartialEq, Eq, Structural)]
pub enum WaitOutcome {
    /// The counter reached its target: proceed.
    Ready,
    /// The shared error flag was raised before the target was reached:
    /// abort the boot sequence with a busy error instead of spinning
    /// forever.
    Busy,
    /// Neither yet: observe again.
    Spin,
}

/// The decision a waiter takes on one observation of a counter and the
/// shared error flag.
pub open spec fn spec_wait_outcome(value: u64, target: u64, error: bool) -> WaitOutcome {
    if value >= target {
        WaitOutcome::Ready
    } else if error {
        WaitOutcome::Busy
    } else {
        WaitOutcome::Spin
    }
}

/// Decide a waiter's next step: success exactly when the counter reached
/// its target; a busy abort exactly when the error flag is set while the
/// counter has not reached the target—so a waiter can return success only
/// after the signal, and the error flag frees it without the counter ever
/// reaching the target.
pub fn poll_counter(value: u64, target: u64, error: bool) -> (r: WaitOutcome)
    ensures
        r == spec_wait_outcome(value, target, error),
        (r == WaitOutcome::Ready) <==> value >= target,
        (r == WaitOutcome::Busy) <==> (value < target && error),
        (r == WaitOutcome::Spin) <==> (value < target && !error),
{
    if value >= target {
        WaitOutcome::Ready
    } else if error {
        WaitOutcome::Busy
    } else {
        WaitOutcome::Spin
    }
}

/// The cooperative multi-core boot state: three monotonically increasing
/// counters—cores entered, early-init complete, late-init complete—and one
/// shared error flag. The embedding runtime holds one instance in shared
/// memory and runs the spin loops; the decisions are taken here.
#[derive(Debug)]
pub struct BootBarrier {
    pub entered: u64,
    pub early_done: u64,
    pub late_done: u64,
    pub error: bool,
}

impl BootBarrier {
    pub fn new() -> (r: Self)
        ensures
            r == (BootBarrier { entered: 0, early_done: 0, late_done: 0, error: false }),
    {
        BootBarrier { entered: 0, early_done: 0, late_done: 0, error: false }
    }

    /// A core announces itself at boot.
    pub fn enter(&mut self)
        requires
            old(self).entered < u64::MAX,
        ensures
            *final(self) == (BootBarrier { entered: (old(self).entered + 1) as u64, ..*old(self) }),
    {
        self.entered = self.entered + 1;
    }

    /// The primary core signals that global early initialization is done.
    pub fn signal_early(&mut self)
        requires
            old(self).early_done < u64::MAX,
        ensures
            *final(self) == (BootBarrier { early_done: (old(self).early_done + 1) as u64, ..*old(self) }),
    {
        self.early_done = self.early_done + 1;
    }

    /// The primary core signals that late initialization is done.
    pub fn signal_late(&mut self)
        requires
            old(self).late_done < u64::MAX,
        ensures
            *final(self) == (BootBarrier { late_done: (old(self).late_done + 1) as u64, ..*old(self) }),
    {
        self.late_done = self.late_done + 1;
    }

    /// Any core broadcasts a fatal local boot error, freeing all waiters.
    pub fn set_error(&mut self)
        ensures
            *final(self) == (BootBarrier { error: true, ..*old(self) }),
    {
        self.error = true;
    }

    /// A secondary core's early-init wait step.
    pub fn poll_early(&self, target: u64) -> (r: WaitOutcome)
        ensures
            r == spec_wait_outcome(self.early_done, target, self.error),
    {
        poll_counter(self.early_done, target, self.error)
    }

    /// A core's late-init wait step.
    pub fn poll_late(&self, target: u64) -> (r: WaitOutcome)
        ensures
            r == spec_wait_outcome(self.late_done, target, self.error),
    {
        poll_counter(self.late_done, target, self.error)
    }
}

} // verus!

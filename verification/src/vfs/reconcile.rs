//! When a live mount checks whether the branch anchor has advanced.

use vstd::prelude::*;

verus! {

/// How long, in milliseconds, the poller waits between two checks.
pub const RECONCILE_POLL_MS: u64 = 3000;

/// How long, in milliseconds, the poller sleeps at a time, so that unmount stops it promptly.
pub const RECONCILE_SLEEP_MS: u64 = 250;

/// What the poller does next.
#[derive(Debug, Clone, Copy, PartialEq, Eq, Structural)]
pub enum PollStep {
    /// End: the mount is gone.
    Stop,
    /// Sleep for [`RECONCILE_SLEEP_MS`].
    Sleep,
    /// Check the branch anchor.
    Reconcile,
}

/// How long the poller has waited since its last check.
#[derive(Debug, Clone, Copy, PartialEq, Eq, Structural)]
pub struct ReconcilePoller {
    waited_ms: u64,
}

impl View for ReconcilePoller {
    type V = nat;

    closed spec fn view(&self) -> nat {
        self.waited_ms as nat
    }
}

/// What a poller that has waited for `waited_ms` does next.
pub open spec fn poll_step(waited_ms: nat, stopped: bool) -> PollStep {
    if stopped {
        PollStep::Stop
    } else if waited_ms < RECONCILE_POLL_MS {
        PollStep::Sleep
    } else {
        PollStep::Reconcile
    }
}

/// How long a poller has waited after a step.
pub open spec fn waited_after(waited_ms: nat, step: PollStep) -> nat {
    match step {
        PollStep::Stop => waited_ms,
        PollStep::Sleep => waited_ms + RECONCILE_SLEEP_MS as nat,
        PollStep::Reconcile => 0,
    }
}

impl ReconcilePoller {
    /// A poller that starts to wait.
    pub fn new() -> (r: ReconcilePoller)
        ensures
            r@ == 0,
    {
        ReconcilePoller { waited_ms: 0 }
    }

    /// Settle what to do next.
    pub fn step(&mut self, stopped: bool) -> (r: PollStep)
        ensures
            r == poll_step(old(self)@, stopped),
            final(self)@ == waited_after(old(self)@, r),
    {
        if stopped {
            return PollStep::Stop;
        }
        if self.waited_ms < RECONCILE_POLL_MS {
            self.waited_ms = self.waited_ms + RECONCILE_SLEEP_MS;
            return PollStep::Sleep;
        }
        self.waited_ms = 0;
        PollStep::Reconcile
    }
}

/// How long a poller that is not stopped sleeps before its next check.
pub open spec fn sleep_until_check(waited_ms: nat) -> nat
    decreases RECONCILE_POLL_MS + RECONCILE_SLEEP_MS - waited_ms,
{
    if poll_step(waited_ms, false) == PollStep::Sleep {
        RECONCILE_SLEEP_MS as nat + sleep_until_check(waited_after(waited_ms, PollStep::Sleep))
    } else {
        0
    }
}

/// A poller checks every [`RECONCILE_POLL_MS`], and one that is stopped does nothing more.
pub proof fn law_poller_checks_periodically(waited_ms: nat)
    ensures
        sleep_until_check(0) == RECONCILE_POLL_MS,
        poll_step(waited_ms, true) == PollStep::Stop,
{
    reveal_with_fuel(sleep_until_check, 13);
}

/// A poller sleeps until it has waited for three seconds since its last check, then checks and starts
/// to wait anew; it never sleeps once it is stopped.
pub proof fn law_poller_sleeps_then_checks(waited_ms: nat)
    ensures
        poll_step(waited_ms, false) == if waited_ms < 3000 {
            PollStep::Sleep
        } else {
            PollStep::Reconcile
        },
        poll_step(waited_ms, true) == PollStep::Stop,
        waited_after(waited_ms, PollStep::Sleep) == waited_ms + 250,
        waited_after(waited_ms, PollStep::Reconcile) == 0,
{
}

} // verus!

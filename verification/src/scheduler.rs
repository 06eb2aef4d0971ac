//! Schedule state of the snapshot scheduler: the enabled flag, which is
//! process-wide and persists across ticks until changed, and the counters
//! under which skipped ticks and failed scheduled snapshots are recorded.

use vstd::prelude::*;

verus! {

/// Mathematical view of the schedule state.
pub ghost struct ScheduleStateView {
    pub enabled: bool,
    pub skipped_ticks: u64,
    pub failed_ticks: u64,
}

/// The scheduler's own state. The timer and the driver calls live outside
/// the core; the core owns the flag and the records.
#[derive(Debug)]
pub struct ScheduleState {
    enabled: bool,
    skipped_ticks: u64,
    failed_ticks: u64,
}

impl View for ScheduleState {
    type V = ScheduleStateView;

    closed spec fn view(&self) -> ScheduleStateView {
        ScheduleStateView {
            enabled: self.enabled,
            skipped_ticks: self.skipped_ticks,
            failed_ticks: self.failed_ticks,
        }
    }
}

/// The outcome of a scheduler tick's attempt to begin a scheduled snapshot
/// on one filesystem.
#[derive(Clone, Copy, PartialEq, Eq, Structural, Debug)]
pub enum TickOutcome {
    /// The schedule is enabled and the filesystem's token was acquired;
    /// the scheduled snapshot may proceed.
    Attempted,
    /// The schedule is disabled; nothing was done.
    SkippedDisabled,
    /// The filesystem's token was unavailable; the tick was skipped and
    /// recorded, not queued.
    SkippedBusy,
}

impl ScheduleState {
    /// Fresh state: schedule disabled, nothing recorded.
    pub fn new() -> (s: ScheduleState)
        ensures
            !s@.enabled,
            s@.skipped_ticks == 0,
            s@.failed_ticks == 0,
    {
        ScheduleState { enabled: false, skipped_ticks: 0, failed_ticks: 0 }
    }

    /// Whether scheduled snapshots are currently enabled.
    pub fn is_enabled(&self) -> (r: bool)
        ensures
            r == self@.enabled,
    {
        self.enabled
    }

    /// Sets the enabled flag. Idempotent: setting the current value again
    /// succeeds and leaves the state as requested.
    pub fn set_enabled(&mut self, enabled: bool)
        ensures
            final(self)@.enabled == enabled,
            final(self)@.skipped_ticks == old(self)@.skipped_ticks,
            final(self)@.failed_ticks == old(self)@.failed_ticks,
    {
        self.enabled = enabled;
    }

    /// Records one skipped tick (saturating).
    pub fn record_skip(&mut self)
        ensures
            final(self)@.enabled == old(self)@.enabled,
            final(self)@.failed_ticks == old(self)@.failed_ticks,
            old(self)@.skipped_ticks < u64::MAX ==> final(self)@.skipped_ticks == old(
                self,
            )@.skipped_ticks + 1,
            old(self)@.skipped_ticks == u64::MAX ==> final(self)@.skipped_ticks == u64::MAX,
    {
        if self.skipped_ticks < u64::MAX {
            self.skipped_ticks = self.skipped_ticks + 1;
        }
    }

    /// Records one failed scheduled snapshot (saturating). Failures are
    /// recorded only; they never stop future ticks.
    pub fn record_failure(&mut self)
        ensures
            final(self)@.enabled == old(self)@.enabled,
            final(self)@.skipped_ticks == old(self)@.skipped_ticks,
            old(self)@.failed_ticks < u64::MAX ==> final(self)@.failed_ticks == old(
                self,
            )@.failed_ticks + 1,
            old(self)@.failed_ticks == u64::MAX ==> final(self)@.failed_ticks == u64::MAX,
    {
        if self.failed_ticks < u64::MAX {
            self.failed_ticks = self.failed_ticks + 1;
        }
    }

    /// The number of ticks skipped because a token was unavailable.
    pub fn skipped_ticks(&self) -> (r: u64)
        ensures
            r == self@.skipped_ticks,
    {
        self.skipped_ticks
    }

    /// The number of scheduled snapshots that failed.
    pub fn failed_ticks(&self) -> (r: u64)
        ensures
            r == self@.failed_ticks,
    {
        self.failed_ticks
    }
}

} // verus!

//! Shared capacity counters and the admission-control protocol.
//!
//! `CapacityStats` is the single piece of mutable shared state of the pool:
//! `pending_workers` counts workers believed idle and able to accept work,
//! `total_workers` counts all live workers. Every update happens through the
//! operations below, which together maintain `pending_workers <=
//! total_workers` and never drive a non-empty pool back to zero workers.

use vstd::prelude::*;

verus! {

/// The condition under which a new worker may be spawned for an incoming
/// request: no idle worker is available, and either no worker exists at all
/// or the memory probe reports comfortable headroom.
pub open spec fn spawn_condition(pending: nat, total: nat, memory_ok: bool) -> bool {
    pending == 0 && (total == 0 || memory_ok)
}

/// The condition under which an idle worker may retire when its idle timer
/// fires: it must not be the last worker, and at least one other idle worker
/// must remain.
pub open spec fn retire_condition(pending: nat, total: nat) -> bool {
    total > 1 && pending > 1
}

/// The idle/total worker counters, guarded by one lock in a concurrent
/// deployment; only integer updates ever happen while it is held.
pub struct CapacityStats {
    pub pending_workers: usize,
    pub total_workers: usize,
}

impl CapacityStats {
    /// The counters are consistent: at most as many idle workers as workers.
    pub open spec fn wf(self) -> bool {
        self.pending_workers <= self.total_workers
    }

    pub open spec fn spawn_allowed(self, memory_ok: bool) -> bool {
        spawn_condition(self.pending_workers as nat, self.total_workers as nat, memory_ok)
    }

    pub open spec fn retire_allowed(self) -> bool {
        retire_condition(self.pending_workers as nat, self.total_workers as nat)
    }

    pub fn new() -> (stats: CapacityStats)
        ensures
            stats.pending_workers == 0,
            stats.total_workers == 0,
            stats.wf(),
    {
        CapacityStats { pending_workers: 0, total_workers: 0 }
    }
}

/// What the admission decision did for one incoming request. Whatever the
/// outcome, the request itself is then placed on the shared queue.
#[derive(Clone, Copy, Debug, PartialEq, Eq, Structural)]
pub enum AdmissionOutcome {
    /// A new worker was spawned for this burst of demand.
    Spawned,
    /// An idle worker's capacity was reserved; the reservation is returned
    /// by [`complete_handoff`] once the request is on the queue.
    ReservedIdle,
    /// No idle worker and no memory headroom: the request just waits.
    Queued,
}

/// The admission decision, executed atomically under the capacity lock
/// before the request is released to the queue.
pub fn admit_request(stats: &mut CapacityStats, memory_ok: bool) -> (outcome: AdmissionOutcome)
    requires
        old(stats).wf(),
        old(stats).total_workers < usize::MAX,
    ensures
        final(stats).wf(),
        old(stats).spawn_allowed(memory_ok) ==> {
            &&& outcome == AdmissionOutcome::Spawned
            &&& final(stats).pending_workers == old(stats).pending_workers + 1
            &&& final(stats).total_workers == old(stats).total_workers + 1
        },
        !old(stats).spawn_allowed(memory_ok) && old(stats).pending_workers > 0 ==> {
            &&& outcome == AdmissionOutcome::ReservedIdle
            &&& final(stats).pending_workers == old(stats).pending_workers - 1
            &&& final(stats).total_workers == old(stats).total_workers
        },
        !old(stats).spawn_allowed(memory_ok) && old(stats).pending_workers == 0 ==> {
            &&& outcome == AdmissionOutcome::Queued
            &&& *final(stats) == *old(stats)
        },
        final(stats).total_workers >= old(stats).total_workers,
        final(stats).total_workers >= 1,
{
    if stats.pending_workers == 0 && (stats.total_workers == 0 || memory_ok) {
        stats.total_workers = stats.total_workers + 1;
        stats.pending_workers = stats.pending_workers + 1;
        AdmissionOutcome::Spawned
    } else if stats.pending_workers > 0 {
        stats.pending_workers = stats.pending_workers - 1;
        AdmissionOutcome::ReservedIdle
    } else {
        AdmissionOutcome::Queued
    }
}

/// The compensating re-increment for a reserved idle worker, performed once
/// the request has actually been handed off to the queue. For the other two
/// outcomes there is nothing to compensate.
pub fn complete_handoff(stats: &mut CapacityStats, outcome: AdmissionOutcome)
    requires
        old(stats).wf(),
        // the reservation taken by `admit_request` keeps one unit of idle capacity
        // out of the counter until this call returns it
        outcome == AdmissionOutcome::ReservedIdle ==> old(stats).pending_workers
            < old(stats).total_workers,
    ensures
        final(stats).wf(),
        outcome == AdmissionOutcome::ReservedIdle ==> {
            &&& final(stats).pending_workers == old(stats).pending_workers + 1
            &&& final(stats).total_workers == old(stats).total_workers
        },
        outcome != AdmissionOutcome::ReservedIdle ==> *final(stats) == *old(stats),
{
    if outcome == AdmissionOutcome::ReservedIdle {
        stats.pending_workers = stats.pending_workers + 1;
    }
}

/// Whether an idle worker whose timer fired may retire right now: retiring
/// is forbidden whenever it would leave the pool without workers or without
/// idle capacity.
pub fn should_retire(stats: &CapacityStats) -> (retire: bool)
    ensures
        retire == stats.retire_allowed(),
{
    stats.total_workers > 1 && stats.pending_workers > 1
}

/// One worker retires: both counters drop by one. Guarded by
/// [`should_retire`], so the pool never drops below one worker.
pub fn retire_one(stats: &mut CapacityStats)
    requires
        old(stats).wf(),
        old(stats).retire_allowed(),
    ensures
        final(stats).wf(),
        final(stats).pending_workers == old(stats).pending_workers - 1,
        final(stats).total_workers == old(stats).total_workers - 1,
        final(stats).total_workers >= 1,
        final(stats).pending_workers >= 1,
{
    stats.total_workers = stats.total_workers - 1;
    stats.pending_workers = stats.pending_workers - 1;
}

} // verus!

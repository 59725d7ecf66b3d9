//! The worker's lifecycle: one long-lived unit of execution owning one
//! formatting engine, looping between "serve the next request" and "idle
//! timer fired".

use vstd::prelude::*;

use crate::capacity::retire_one;
use crate::capacity::should_retire;
use crate::capacity::CapacityStats;
use crate::pool::idle_timer_step;
use crate::pool::PoolState;

verus! {

/// Where a worker stands in its life.
#[derive(Clone, Copy, Debug, PartialEq, Eq, Structural)]
pub enum WorkerState {
    /// Waiting for a request or for its idle timer.
    Idle,
    /// Executing one formatting call.
    Busy,
    /// Exited its loop for good; its engine is discarded.
    Retired,
}

/// One worker: its lifecycle state and the formatting engine it exclusively
/// owns.
pub struct Worker<F> {
    pub state: WorkerState,
    pub engine: F,
}

/// What an idle worker does when its idle timer fires: it retires — and
/// books itself out of both counters — only when it is neither the last
/// worker nor the last idle one; otherwise it stays idle and rearms the
/// timer. This is exactly [`idle_timer_step`] of the pool model.
pub fn handle_idle_timer(stats: &mut CapacityStats) -> (retired: bool)
    requires
        old(stats).wf(),
    ensures
        final(stats).wf(),
        retired == old(stats).retire_allowed(),
        retired ==> {
            &&& final(stats).pending_workers == old(stats).pending_workers - 1
            &&& final(stats).total_workers == old(stats).total_workers - 1
        },
        !retired ==> *final(stats) == *old(stats),
        final(stats).total_workers >= 1 || old(stats).total_workers == 0,
{
    if should_retire(stats) {
        retire_one(stats);
        true
    } else {
        false
    }
}

/// `handle_idle_timer` performs exactly the pool model's idle-timer step on
/// the counters.
pub proof fn lemma_idle_timer_matches_model(pre: CapacityStats, post: CapacityStats, s: PoolState)
    requires
        pre.wf(),
        s.pending == pre.pending_workers,
        s.total == pre.total_workers,
        post == (if pre.retire_allowed() {
            CapacityStats {
                pending_workers: (pre.pending_workers - 1) as usize,
                total_workers: (pre.total_workers - 1) as usize,
            }
        } else {
            pre
        }),
    ensures
        idle_timer_step(s).pending == post.pending_workers,
        idle_timer_step(s).total == post.total_workers,
{
}

} // verus!

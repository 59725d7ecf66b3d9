//! A ghost model of the pool's whole lifecycle protocol.
//!
//! The concurrent pool interleaves three kinds of atomic counter updates:
//! an admission decision per incoming request ([`crate::capacity::admit_request`]),
//! the compensating re-increment once a reserved request is on the queue
//! ([`crate::capacity::complete_handoff`]), and the retirement check when an
//! idle worker's timer fires ([`crate::capacity::should_retire`] /
//! [`crate::capacity::retire_one`]). `PoolState` records the counters
//! together with the number of reservations still outstanding between an
//! admission and its handoff, and `step` is exactly what each of those
//! atomic updates does. The lemmas below prove the pool's global laws over
//! every reachable interleaving.

use vstd::prelude::*;

use crate::capacity::retire_condition;
use crate::capacity::spawn_condition;
use crate::capacity::AdmissionOutcome;
use crate::capacity::CapacityStats;

verus! {

/// One abstract state of the pool's bookkeeping.
pub struct PoolState {
    /// Workers currently counted as idle and able to take a request.
    pub pending: nat,
    /// All live workers.
    pub total: nat,
    /// Reservations taken by an admission decision and not yet returned by
    /// the matching handoff.
    pub reserved: nat,
    /// Whether any request was ever admitted.
    pub admitted: bool,
}

/// One atomic counter update of the protocol.
pub enum PoolEvent {
    /// A request arrives and the admission decision runs, with this reading
    /// of the memory gate.
    Admit { memory_ok: bool },
    /// A request whose admission reserved an idle worker has been handed off
    /// to the queue; the reservation is returned.
    Handoff,
    /// An idle worker's timer fired; the worker retires only if the
    /// retirement condition holds at that moment.
    IdleTimer,
}

/// The state in which a pool starts: no workers, nothing admitted.
pub open spec fn init_state() -> PoolState {
    PoolState { pending: 0, total: 0, reserved: 0, admitted: false }
}

/// What the admission decision does to the abstract state.
pub open spec fn admit_step(s: PoolState, memory_ok: bool) -> PoolState {
    if spawn_condition(s.pending, s.total, memory_ok) {
        PoolState { pending: s.pending + 1, total: s.total + 1, reserved: s.reserved, admitted: true }
    } else if s.pending > 0 {
        PoolState { pending: (s.pending - 1) as nat, total: s.total, reserved: s.reserved + 1, admitted: true }
    } else {
        PoolState { pending: s.pending, total: s.total, reserved: s.reserved, admitted: true }
    }
}

/// What the compensating re-increment does: one outstanding reservation is
/// turned back into idle capacity. Without an outstanding reservation there
/// is nothing to return.
pub open spec fn handoff_step(s: PoolState) -> PoolState {
    if s.reserved > 0 {
        PoolState { pending: s.pending + 1, total: s.total, reserved: (s.reserved - 1) as nat, admitted: s.admitted }
    } else {
        s
    }
}

/// What a fired idle timer does: the worker retires only when it is neither
/// the last worker nor the last idle one; otherwise it rearms and waits.
pub open spec fn idle_timer_step(s: PoolState) -> PoolState {
    if retire_condition(s.pending, s.total) {
        PoolState { pending: (s.pending - 1) as nat, total: (s.total - 1) as nat, reserved: s.reserved, admitted: s.admitted }
    } else {
        s
    }
}

pub open spec fn step(s: PoolState, e: PoolEvent) -> PoolState {
    match e {
        PoolEvent::Admit { memory_ok } => admit_step(s, memory_ok),
        PoolEvent::Handoff => handoff_step(s),
        PoolEvent::IdleTimer => idle_timer_step(s),
    }
}

/// The state after a whole sequence of events, run from `s`.
pub open spec fn run(s: PoolState, events: Seq<PoolEvent>) -> PoolState
    decreases events.len(),
{
    if events.len() == 0 {
        s
    } else {
        step(run(s, events.drop_last()), events.last())
    }
}

/// The pool's inductive invariant: counting the idle capacity that is only
/// parked in outstanding reservations, there are never more idle workers
/// than workers; and once anything was admitted, at least one worker lives.
pub open spec fn inv(s: PoolState) -> bool {
    &&& s.pending + s.reserved <= s.total
    &&& s.admitted ==> s.total >= 1
}

pub proof fn lemma_inv_init()
    ensures
        inv(init_state()),
{
}

/// Every single protocol step preserves the invariant.
pub proof fn lemma_inv_step(s: PoolState, e: PoolEvent)
    requires
        inv(s),
    ensures
        inv(step(s, e)),
{
}

/// No step ever drives a non-empty pool back to zero workers: retirement is
/// the only decrement and it demands at least two workers.
pub proof fn lemma_total_stays_positive(s: PoolState, e: PoolEvent)
    requires
        s.total >= 1,
    ensures
        step(s, e).total >= 1,
{
}

/// The pool's global safety law, over every reachable state: however the
/// admissions, handoffs and idle timers of concurrent callers and workers
/// interleave, the counters stay consistent, and once a request has been
/// admitted the pool never again runs out of workers.
pub proof fn lemma_inv_reachable(events: Seq<PoolEvent>)
    ensures
        inv(run(init_state(), events)),
        run(init_state(), events).pending <= run(init_state(), events).total,
        run(init_state(), events).admitted ==> run(init_state(), events).total >= 1,
    decreases events.len(),
{
    if events.len() > 0 {
        lemma_inv_reachable(events.drop_last());
        lemma_inv_step(run(init_state(), events.drop_last()), events.last());
    }
}

/// Once admitted, always admitted, and the worker count never drops to
/// zero afterwards, whatever events follow.
pub proof fn lemma_admitted_is_permanent(s: PoolState, events: Seq<PoolEvent>)
    requires
        s.admitted,
        s.total >= 1,
    ensures
        run(s, events).admitted,
        run(s, events).total >= 1,
    decreases events.len(),
{
    if events.len() > 0 {
        lemma_admitted_is_permanent(s, events.drop_last());
        lemma_total_stays_positive(run(s, events.drop_last()), events.last());
    }
}

/// `admit_request` performs exactly the model's admission step on the
/// counters, and its outcome names the branch taken.
pub proof fn lemma_admission_matches_model(
    pre: CapacityStats,
    post: CapacityStats,
    outcome: AdmissionOutcome,
    memory_ok: bool,
    s: PoolState,
)
    requires
        pre.wf(),
        s.pending == pre.pending_workers,
        s.total == pre.total_workers,
        pre.spawn_allowed(memory_ok) ==> outcome == AdmissionOutcome::Spawned
            && post.pending_workers == pre.pending_workers + 1 && post.total_workers
            == pre.total_workers + 1,
        !pre.spawn_allowed(memory_ok) && pre.pending_workers > 0 ==> outcome
            == AdmissionOutcome::ReservedIdle && post.pending_workers == pre.pending_workers - 1
            && post.total_workers == pre.total_workers,
        !pre.spawn_allowed(memory_ok) && pre.pending_workers == 0 ==> outcome
            == AdmissionOutcome::Queued && post == pre,
    ensures
        admit_step(s, memory_ok).pending == post.pending_workers,
        admit_step(s, memory_ok).total == post.total_workers,
        admit_step(s, memory_ok).reserved == s.reserved + (
        if outcome == AdmissionOutcome::ReservedIdle {
            1nat
        } else {
            0nat
        }),
{
}

/// `complete_handoff` performs exactly the model's handoff step on the
/// counters, when the model carries the one reservation the caller holds.
pub proof fn lemma_handoff_matches_model(
    pre: CapacityStats,
    post: CapacityStats,
    outcome: AdmissionOutcome,
    s: PoolState,
)
    requires
        pre.wf(),
        s.pending == pre.pending_workers,
        s.total == pre.total_workers,
        s.reserved == (if outcome == AdmissionOutcome::ReservedIdle {
            1nat
        } else {
            0nat
        }),
        outcome == AdmissionOutcome::ReservedIdle ==> post.pending_workers == pre.pending_workers
            + 1 && post.total_workers == pre.total_workers,
        outcome != AdmissionOutcome::ReservedIdle ==> post == pre,
    ensures
        handoff_step(s).pending == post.pending_workers,
        handoff_step(s).total == post.total_workers,
        handoff_step(s).reserved == 0,
{
}

/// How many of the admissions in a burst spawned a worker: the state is
/// threaded through from `s`, every event an admission with the given
/// memory-gate reading.
pub open spec fn burst_spawn_count(s: PoolState, readings: Seq<bool>) -> nat
    decreases readings.len(),
{
    if readings.len() == 0 {
        0
    } else {
        burst_spawn_count(s, readings.drop_last()) + if spawn_condition(
            run_burst(s, readings.drop_last()).pending,
            run_burst(s, readings.drop_last()).total,
            readings.last(),
        ) {
            1nat
        } else {
            0nat
        }
    }
}

/// The state after a burst of admissions with the given memory readings.
pub open spec fn run_burst(s: PoolState, readings: Seq<bool>) -> PoolState
    decreases readings.len(),
{
    if readings.len() == 0 {
        s
    } else {
        admit_step(run_burst(s, readings.drop_last()), readings.last())
    }
}

/// Single spawn per burst: any number of requests admitted before any
/// worker exists spawn exactly one worker between them, provided the memory
/// gate stays closed (an open gate deliberately allows a second spawn once
/// a worker exists and none is idle). The first request spawns
/// unconditionally; every later one reserves or queues.
pub proof fn lemma_single_spawn_per_burst(readings: Seq<bool>)
    requires
        readings.len() >= 1,
        forall|i: int| 0 <= i < readings.len() ==> !readings[i],
    ensures
        burst_spawn_count(init_state(), readings) == 1,
        run_burst(init_state(), readings).total == 1,
    decreases readings.len(),
{
    if readings.len() == 1 {
        assert(readings.drop_last().len() == 0);
        assert(burst_spawn_count(init_state(), readings.drop_last()) == 0);
        assert(run_burst(init_state(), readings.drop_last()) == init_state());
        assert(spawn_condition(init_state().pending, init_state().total, readings.last()));
        assert(burst_spawn_count(init_state(), readings) == 1);
    } else {
        lemma_single_spawn_per_burst(readings.drop_last());
        let prev = run_burst(init_state(), readings.drop_last());
        assert(!readings.last());
        assert(!spawn_condition(prev.pending, prev.total, readings.last()));
        assert(burst_spawn_count(init_state(), readings) == burst_spawn_count(
            init_state(),
            readings.drop_last(),
        ));
    }
}

/// Whatever the memory gate reads, the second request of a burst never
/// spawns: the first spawn left an idle worker to reserve.
pub proof fn lemma_second_request_never_spawns(first_reading: bool, second_reading: bool)
    ensures
        admit_step(init_state(), first_reading).total == 1,
        !spawn_condition(
            admit_step(init_state(), first_reading).pending,
            admit_step(init_state(), first_reading).total,
            second_reading,
        ),
{
}

/// Last-worker protection: with exactly one worker, a fired idle timer
/// retires nothing, no matter how often it fires.
pub proof fn lemma_last_worker_protected(s: PoolState)
    requires
        s.total == 1,
    ensures
        idle_timer_step(s) == s,
{
}

/// Idle retirement: with two workers both idle, one fired timer retires
/// exactly one of them, and a second fired timer retires nothing more.
pub proof fn lemma_idle_retirement(s: PoolState)
    requires
        s.pending == 2,
        s.total == 2,
    ensures
        idle_timer_step(s).pending == 1,
        idle_timer_step(s).total == 1,
        idle_timer_step(idle_timer_step(s)) == idle_timer_step(s),
{
}

} // verus!

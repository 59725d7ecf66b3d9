//! The elastic worker pool: the dispatcher's shared queue, the capacity
//! counters, and the workers with their engines, advanced one atomic
//! protocol step at a time.
//!
//! `Channel::format` is the public entry point: it runs the admission
//! decision under the capacity counters, spawns at most one worker, places
//! the request on the queue, and serves the queue in arrival order with an
//! idle worker until the caller's own reply is produced. A concurrent
//! deployment runs the same steps from many threads; every law proved here
//! speaks about the steps themselves, and the pool model
//! ([`crate::pool`]) covers their arbitrary interleavings.

use vstd::prelude::*;

use crate::capacity::admit_request;
use crate::capacity::complete_handoff;
use crate::capacity::AdmissionOutcome;
use crate::capacity::CapacityStats;
use crate::config::PrettierConfig;
use crate::formatter::outcome_of;
use crate::formatter::FormatOutcome;
use crate::formatter::Formatter;
use crate::memory::memory_comfortable;
use crate::memory::memory_gate;
use crate::worker::handle_idle_timer;
use crate::worker::Worker;
use crate::worker::WorkerState;

verus! {

/// One formatting request: the payload handed to whichever worker dequeues
/// it. The `id` stands for the caller's single-use reply slot: the reply
/// carrying the same `id` is written to exactly that caller.
pub struct FormatRequest {
    /// Identity of the caller's reply slot.
    pub id: u64,
    pub file_path: String,
    pub file_text: String,
    pub config: PrettierConfig,
    /// An optional sub-range of the text to format.
    pub range: Option<(usize, usize)>,
}

/// How a `format` call can fail.
#[derive(Debug)]
pub enum FormatError {
    /// The queue or the reply slot was torn down mid-flight: the dispatcher
    /// is unavailable. Never retried automatically.
    ChannelUnavailable,
    /// The engine failed on this one request; the worker that served it
    /// stays alive and idle.
    Engine(String),
}

/// What a `format` call returns: formatted text, no change, or an error.
pub type FormatResult = Result<Option<String>, FormatError>;

/// A worker's answer to one request, carrying the identity of the reply
/// slot it belongs to.
pub struct Reply {
    pub id: u64,
    /// The engine's raw result: an error here is the engine's own message.
    pub result: Result<Option<String>, String>,
}

/// The outcome a finished `format` call stands for.
pub open spec fn format_result_outcome(result: FormatResult) -> FormatOutcome {
    match result {
        Ok(None) => FormatOutcome::Unchanged,
        Ok(Some(text)) => FormatOutcome::Formatted(text@),
        Err(FormatError::Engine(message)) => FormatOutcome::Failed(message@),
        Err(FormatError::ChannelUnavailable) => FormatOutcome::Failed(Seq::<char>::empty()),
    }
}

/// What the dispatcher is built with.
pub struct CreateChannelOptions {
    /// The memory one engine instance is expected to use, in bytes; the
    /// admission gate demands 2.2 times this much headroom before spawning
    /// a worker beyond the first.
    pub avg_isolate_memory_usage: usize,
}

/// How many of these workers are still live (not retired).
pub open spec fn live_worker_count<F>(workers: Seq<Worker<F>>) -> nat
    decreases workers.len(),
{
    if workers.len() == 0 {
        0
    } else {
        live_worker_count(workers.drop_last()) + if workers.last().state != WorkerState::Retired {
            1nat
        } else {
            0nat
        }
    }
}

/// The position of the first idle worker, or `-1` when none is idle.
pub open spec fn first_idle_index<F>(workers: Seq<Worker<F>>) -> int
    decreases workers.len(),
{
    if workers.len() == 0 {
        -1
    } else if workers[0].state == WorkerState::Idle {
        0
    } else if first_idle_index(workers.drop_first()) < 0 {
        -1
    } else {
        first_idle_index(workers.drop_first()) + 1
    }
}

/// The engine state reached after serving these requests in order,
/// starting from `engine`.
pub open spec fn engine_after<F: Formatter>(engine: F, requests: Seq<FormatRequest>) -> F
    decreases requests.len(),
{
    if requests.len() == 0 {
        engine
    } else {
        engine_after(engine, requests.drop_last()).next_spec(requests.last())
    }
}

/// The engine states in which each of these requests is served, when one
/// engine serves them in order.
pub open spec fn engine_states<F: Formatter>(engine: F, requests: Seq<FormatRequest>) -> Seq<F> {
    Seq::new(requests.len(), |i: int| engine_after(engine, requests.take(i)))
}

/// Result correlation: reply `i` answers request `i` — it carries that
/// request's reply-slot identity, and its payload is what the engine that
/// served it answers to that request's own payload.
pub open spec fn replies_correlated<F: Formatter>(
    requests: Seq<FormatRequest>,
    engines: Seq<F>,
    replies: Seq<Reply>,
) -> bool {
    &&& replies.len() == requests.len()
    &&& engines.len() == requests.len()
    &&& forall|i: int|
        0 <= i < requests.len() ==> replies[i].id == requests[i].id && outcome_of(
            replies[i].result,
        ) == engines[i].response_spec(requests[i])
}

/// Each of a batch of requests with distinct reply slots receives exactly
/// one reply, and that reply answers its own payload — whichever engines
/// served the batch and in whatever order the answers were computed.
pub proof fn lemma_result_correlation<F: Formatter>(
    requests: Seq<FormatRequest>,
    engines: Seq<F>,
    replies: Seq<Reply>,
)
    requires
        replies_correlated(requests, engines, replies),
        forall|i: int, j: int|
            0 <= i < j < requests.len() ==> requests[i].id != requests[j].id,
    ensures
        forall|i: int|
            0 <= i < requests.len() ==> replies[i].id == requests[i].id && outcome_of(
                replies[i].result,
            ) == engines[i].response_spec(requests[i]),
        forall|i: int, j: int|
            0 <= i < requests.len() && 0 <= j < replies.len() && replies[j].id == requests[i].id
                ==> j == i,
{
    assert forall|i: int, j: int|
        0 <= i < requests.len() && 0 <= j < replies.len() && replies[j].id
            == requests[i].id implies j == i by {
        assert(replies[j].id == requests[j].id);
        if i < j {
            assert(requests[i].id != requests[j].id);
        } else if j < i {
            assert(requests[j].id != requests[i].id);
        }
    }
}

/// The net effect of one admission on the counters, once the handoff has
/// completed: a spawn books the new worker in; a reservation is returned by
/// the handoff; a queued request changes nothing.
pub open spec fn stats_after_admission(stats: CapacityStats, memory_ok: bool) -> CapacityStats {
    if stats.spawn_allowed(memory_ok) {
        CapacityStats {
            pending_workers: (stats.pending_workers + 1) as usize,
            total_workers: (stats.total_workers + 1) as usize,
        }
    } else {
        stats
    }
}

/// Everything one `format` call promises: on a disposed dispatcher it fails
/// with the dispatcher-unavailable error and changes nothing; otherwise the
/// counters move exactly by the admission decision, the queue is served in
/// arrival order, and the result is what the serving engine — the first
/// idle worker after the admission — answers to this very request.
pub open spec fn format_post<F: Formatter>(
    pre: Channel<F>,
    post: Channel<F>,
    request: FormatRequest,
    available_memory: u64,
    result: FormatResult,
) -> bool {
    &&& pre.disposed ==> {
        &&& result matches Err(FormatError::ChannelUnavailable)
        &&& post == pre
    }
    &&& !pre.disposed ==> {
        let memory_ok = memory_comfortable(
            available_memory,
            pre.options.avg_isolate_memory_usage as u64,
        );
        let requests = pre.queue@.push(request);
        let workers1 = if pre.stats.spawn_allowed(memory_ok) {
            pre.workers@.push(Worker { state: WorkerState::Idle, engine: F::create_spec() })
        } else {
            pre.workers@
        };
        let serving = first_idle_index(workers1);
        &&& post.stats == stats_after_admission(pre.stats, memory_ok)
        &&& post.stats.total_workers >= 1
        &&& post.queue@.len() == 0
        &&& !(result matches Err(FormatError::ChannelUnavailable))
        &&& format_result_outcome(result) == engine_states(
            workers1[serving].engine,
            requests,
        )[requests.len() - 1].response_spec(request)
        &&& post.workers@ == workers1.update(
            serving,
            Worker {
                state: WorkerState::Idle,
                engine: engine_after(workers1[serving].engine, requests),
            },
        )
    }
}

/// The dispatcher together with everything it owns: the capacity counters,
/// the shared request queue, and the workers. A handle to it is shared by
/// all callers.
pub struct Channel<F: Formatter> {
    pub stats: CapacityStats,
    pub queue: Vec<FormatRequest>,
    pub workers: Vec<Worker<F>>,
    pub options: CreateChannelOptions,
    pub disposed: bool,
}

pub proof fn lemma_live_count_push<F>(workers: Seq<Worker<F>>, worker: Worker<F>)
    ensures
        live_worker_count(workers.push(worker)) == live_worker_count(workers) + if worker.state
            != WorkerState::Retired {
            1nat
        } else {
            0nat
        },
{
    assert(workers.push(worker).drop_last() =~= workers);
}

pub proof fn lemma_live_count_update<F>(workers: Seq<Worker<F>>, i: int, worker: Worker<F>)
    requires
        0 <= i < workers.len(),
    ensures
        live_worker_count(workers.update(i, worker)) == live_worker_count(workers) - (
        if workers[i].state != WorkerState::Retired {
            1int
        } else {
            0int
        }) + (
        if worker.state != WorkerState::Retired {
            1int
        } else {
            0int
        }),
    decreases workers.len(),
{
    if i == workers.len() - 1 {
        assert(workers.update(i, worker).drop_last() =~= workers.drop_last());
    } else {
        assert(workers.update(i, worker).drop_last() =~= workers.drop_last().update(i, worker));
        lemma_live_count_update(workers.drop_last(), i, worker);
    }
}

/// A pool in which no worker is busy and at least one is live has an idle
/// worker to find.
pub proof fn lemma_first_idle_exists<F>(workers: Seq<Worker<F>>)
    requires
        live_worker_count(workers) > 0,
        forall|i: int| 0 <= i < workers.len() ==> workers[i].state != WorkerState::Busy,
    ensures
        0 <= first_idle_index(workers) < workers.len(),
        workers[first_idle_index(workers)].state == WorkerState::Idle,
    decreases workers.len(),
{
    lemma_first_idle_bounds(workers);
    if workers[0].state != WorkerState::Idle {
        assert(workers[0].state == WorkerState::Retired);
        assert(live_worker_count(workers.drop_first()) > 0) by {
            lemma_live_count_drop_first(workers);
        }
        assert(forall|i: int|
            0 <= i < workers.drop_first().len() ==> workers.drop_first()[i].state
                != WorkerState::Busy);
        lemma_first_idle_exists(workers.drop_first());
    }
}

pub proof fn lemma_first_idle_bounds<F>(workers: Seq<Worker<F>>)
    ensures
        -1 <= first_idle_index(workers) < workers.len(),
        first_idle_index(workers) >= 0 ==> workers[first_idle_index(workers)].state
            == WorkerState::Idle,
    decreases workers.len(),
{
    if workers.len() > 0 && workers[0].state != WorkerState::Idle {
        lemma_first_idle_bounds(workers.drop_first());
    }
}

pub proof fn lemma_live_count_drop_first<F>(workers: Seq<Worker<F>>)
    requires
        workers.len() > 0,
    ensures
        live_worker_count(workers) == live_worker_count(workers.drop_first()) + if workers[0].state
            != WorkerState::Retired {
            1nat
        } else {
            0nat
        },
    decreases workers.len(),
{
    if workers.len() == 1 {
        assert(workers.drop_first() =~= Seq::<Worker<F>>::empty());
    } else {
        assert(workers.drop_last().drop_first() =~= workers.drop_first().drop_last());
        lemma_live_count_drop_first(workers.drop_last());
    }
}

impl<F: Formatter> Channel<F> {
    /// The pool's well-formedness: consistent counters, and — while the
    /// pool is not disposed — the total counter counts exactly the live
    /// workers, none of which is stuck busy between protocol steps.
    pub open spec fn wf(self) -> bool {
        &&& self.stats.wf()
        &&& !self.disposed ==> {
            &&& self.stats.total_workers == live_worker_count(self.workers@)
            &&& forall|i: int|
                0 <= i < self.workers@.len() ==> self.workers@[i].state != WorkerState::Busy
        }
    }

    /// A new dispatcher: no workers yet — the first request spawns one.
    pub fn new(options: CreateChannelOptions) -> (channel: Channel<F>)
        ensures
            channel.wf(),
            channel.stats.pending_workers == 0,
            channel.stats.total_workers == 0,
            channel.queue@.len() == 0,
            channel.workers@.len() == 0,
            !channel.disposed,
            channel.options == options,
    {
        Channel {
            stats: CapacityStats::new(),
            queue: Vec::new(),
            workers: Vec::new(),
            options,
            disposed: false,
        }
    }

    /// The position of an idle worker, when one exists.
    pub fn find_idle_worker(&self) -> (position: Option<usize>)
        ensures
            match position {
                Some(i) => i == first_idle_index(self.workers@) && i < self.workers@.len()
                    && self.workers@[i as int].state == WorkerState::Idle,
                None => first_idle_index(self.workers@) < 0,
            },
    {
        proof {
            lemma_first_idle_bounds(self.workers@);
        }
        let mut i: usize = 0;
        while i < self.workers.len()
            invariant
                0 <= i <= self.workers@.len(),
                forall|j: int| 0 <= j < i ==> self.workers@[j].state != WorkerState::Idle,
                first_idle_index(self.workers@) >= 0 ==> first_idle_index(self.workers@) >= i,
                -1 <= first_idle_index(self.workers@) < self.workers@.len(),
                first_idle_index(self.workers@) >= 0 ==> self.workers@[first_idle_index(
                    self.workers@,
                )].state == WorkerState::Idle,
            decreases self.workers@.len() - i,
        {
            if self.workers[i].state == WorkerState::Idle {
                proof {
                    lemma_first_idle_prefix(self.workers@, i as int);
                }
                return Some(i);
            }
            i = i + 1;
        }
        None
    }

    /// The admission decision and the handoff for one request: decides
    /// whether to spawn, books the decision into the counters, spawns the
    /// worker if one is owed, and places the request on the queue.
    pub fn submit(&mut self, request: FormatRequest, available_memory: u64) -> (admission: Result<
        AdmissionOutcome,
        FormatError,
    >)
        requires
            old(self).wf(),
            old(self).stats.total_workers < usize::MAX,
        ensures
            final(self).wf(),
            old(self).disposed ==> {
                &&& admission matches Err(FormatError::ChannelUnavailable)
                &&& *final(self) == *old(self)
            },
            !old(self).disposed ==> {
                let memory_ok = memory_comfortable(
                    available_memory,
                    old(self).options.avg_isolate_memory_usage as u64,
                );
                &&& final(self).stats == stats_after_admission(old(self).stats, memory_ok)
                &&& final(self).queue@ == old(self).queue@.push(request)
                &&& final(self).options == old(self).options
                &&& !final(self).disposed
                &&& (old(self).stats.spawn_allowed(memory_ok) ==> {
                    &&& admission matches Ok(AdmissionOutcome::Spawned)
                    &&& final(self).workers@ == old(self).workers@.push(
                        Worker { state: WorkerState::Idle, engine: F::create_spec() },
                    )
                })
                &&& (!old(self).stats.spawn_allowed(memory_ok) ==> {
                    &&& final(self).workers@ == old(self).workers@
                    &&& (old(self).stats.pending_workers > 0 ==> admission matches Ok(
                        AdmissionOutcome::ReservedIdle,
                    ))
                    &&& (old(self).stats.pending_workers == 0 ==> admission matches Ok(
                        AdmissionOutcome::Queued,
                    ))
                })
                &&& final(self).stats.total_workers >= 1
            },
    {
        if self.disposed {
            return Err(FormatError::ChannelUnavailable);
        }
        let memory_ok = memory_gate(
            available_memory,
            self.options.avg_isolate_memory_usage as u64,
        );
        let outcome = admit_request(&mut self.stats, memory_ok);
        if outcome == AdmissionOutcome::Spawned {
            let engine = F::create();
            self.workers.push(Worker { state: WorkerState::Idle, engine });
            proof {
                lemma_live_count_push(
                    old(self).workers@,
                    Worker { state: WorkerState::Idle, engine: F::create_spec() },
                );
            }
        }
        self.queue.push(request);
        complete_handoff(&mut self.stats, outcome);
        Ok(outcome)
    }

    /// One idle worker dequeues the request at the front of the queue,
    /// becomes busy, runs its engine on it, replies, and is idle again. The
    /// reply answers exactly the dequeued request.
    pub fn serve_next(&mut self, worker_index: usize) -> (reply: Option<Reply>)
        requires
            old(self).wf(),
            !old(self).disposed,
            worker_index < old(self).workers@.len(),
            old(self).workers@[worker_index as int].state == WorkerState::Idle,
        ensures
            final(self).wf(),
            old(self).queue@.len() == 0 ==> reply is None && *final(self) == *old(self),
            old(self).queue@.len() > 0 ==> {
                let request = old(self).queue@[0];
                let engine = old(self).workers@[worker_index as int].engine;
                &&& reply matches Some(r) && r.id == request.id && outcome_of(r.result)
                    == engine.response_spec(request)
                &&& final(self).queue@ == old(self).queue@.drop_first()
                &&& final(self).workers@ == old(self).workers@.update(
                    worker_index as int,
                    Worker { state: WorkerState::Idle, engine: engine.next_spec(request) },
                )
                &&& final(self).stats == old(self).stats
                &&& final(self).options == old(self).options
                &&& final(self).disposed == old(self).disposed
            },
    {
        if self.queue.len() == 0 {
            return None;
        }
        let request = self.queue.remove(0);
        proof {
            assert(old(self).queue@.remove(0) =~= old(self).queue@.drop_first());
        }
        let worker = &mut self.workers[worker_index];
        worker.state = WorkerState::Busy;
        let result = worker.engine.format_text(&request);
        worker.state = WorkerState::Idle;
        proof {
            lemma_live_count_update(
                old(self).workers@,
                worker_index as int,
                self.workers@[worker_index as int],
            );
        }
        Some(Reply { id: request.id, result })
    }

    /// One idle worker's timer fired: it retires — leaving its loop for
    /// good — exactly when it is neither the last worker nor the last idle
    /// one.
    pub fn idle_timeout(&mut self, worker_index: usize) -> (retired: bool)
        requires
            old(self).wf(),
            !old(self).disposed,
            worker_index < old(self).workers@.len(),
            old(self).workers@[worker_index as int].state == WorkerState::Idle,
        ensures
            final(self).wf(),
            retired == old(self).stats.retire_allowed(),
            retired ==> {
                &&& final(self).stats.pending_workers == old(self).stats.pending_workers - 1
                &&& final(self).stats.total_workers == old(self).stats.total_workers - 1
                &&& final(self).stats.total_workers >= 1
                &&& final(self).workers@ == old(self).workers@.update(
                    worker_index as int,
                    Worker {
                        state: WorkerState::Retired,
                        engine: old(self).workers@[worker_index as int].engine,
                    },
                )
            },
            !retired ==> *final(self) == *old(self),
            final(self).queue@ == old(self).queue@,
            final(self).options == old(self).options,
            final(self).disposed == old(self).disposed,
    {
        let retired = handle_idle_timer(&mut self.stats);
        if retired {
            let worker = &mut self.workers[worker_index];
            worker.state = WorkerState::Retired;
            proof {
                lemma_live_count_update(
                    old(self).workers@,
                    worker_index as int,
                    self.workers@[worker_index as int],
                );
            }
        }
        retired
    }

    /// Shuts the pool down: the queue is closed, every worker exits its
    /// loop without touching the counters, and every later `format` call
    /// fails with the dispatcher-unavailable error. Requests still queued
    /// are abandoned.
    pub fn dispose(&mut self)
        requires
            old(self).wf(),
        ensures
            final(self).wf(),
            final(self).disposed,
            final(self).stats == old(self).stats,
            final(self).queue@ == old(self).queue@,
            final(self).options == old(self).options,
            final(self).workers@.len() == old(self).workers@.len(),
            forall|i: int|
                0 <= i < final(self).workers@.len() ==> final(self).workers@[i].state
                    == WorkerState::Retired && final(self).workers@[i].engine == old(
                    self,
                ).workers@[i].engine,
    {
        self.disposed = true;
        let mut i: usize = 0;
        while i < self.workers.len()
            invariant
                0 <= i <= self.workers@.len(),
                self.workers@.len() == old(self).workers@.len(),
                forall|j: int|
                    0 <= j < i ==> self.workers@[j].state == WorkerState::Retired
                        && self.workers@[j].engine == old(self).workers@[j].engine,
                forall|j: int| i <= j < self.workers@.len() ==> self.workers@[j] == old(
                    self,
                ).workers@[j],
                self.disposed,
                self.stats == old(self).stats,
                self.queue@ == old(self).queue@,
                self.options == old(self).options,
            decreases self.workers@.len() - i,
        {
            let worker = &mut self.workers[i];
            worker.state = WorkerState::Retired;
            i = i + 1;
        }
    }

    /// One idle worker serves the whole queue in arrival order. The replies
    /// are correlated: reply `i` answers request `i` with that request's
    /// own payload.
    pub fn drain_with(&mut self, worker_index: usize) -> (replies: Vec<Reply>)
        requires
            old(self).wf(),
            !old(self).disposed,
            worker_index < old(self).workers@.len(),
            old(self).workers@[worker_index as int].state == WorkerState::Idle,
        ensures
            final(self).wf(),
            replies_correlated(
                old(self).queue@,
                engine_states(old(self).workers@[worker_index as int].engine, old(self).queue@),
                replies@,
            ),
            final(self).queue@.len() == 0,
            final(self).workers@ == old(self).workers@.update(
                worker_index as int,
                Worker {
                    state: WorkerState::Idle,
                    engine: engine_after(
                        old(self).workers@[worker_index as int].engine,
                        old(self).queue@,
                    ),
                },
            ),
            final(self).stats == old(self).stats,
            final(self).options == old(self).options,
            final(self).disposed == old(self).disposed,
    {
        let ghost all_requests = self.queue@;
        let ghost engine0 = self.workers@[worker_index as int].engine;
        let ghost workers0 = self.workers@;
        let ghost stats0 = self.stats;
        let ghost options0 = self.options;
        let mut replies: Vec<Reply> = Vec::new();
        proof {
            assert(all_requests.take(0) =~= Seq::<FormatRequest>::empty());
            assert(workers0[worker_index as int] == (Worker {
                state: WorkerState::Idle,
                engine: engine_after(engine0, all_requests.take(0)),
            }));
            assert(self.workers@ =~= workers0.update(
                worker_index as int,
                Worker {
                    state: WorkerState::Idle,
                    engine: engine_after(engine0, all_requests.take(0)),
                },
            ));
        }
        while self.queue.len() > 0
            invariant
                self.wf(),
                !self.disposed,
                worker_index < workers0.len(),
                replies@.len() <= all_requests.len(),
                self.queue@ =~= all_requests.skip(replies@.len() as int),
                self.workers@ =~= workers0.update(
                    worker_index as int,
                    Worker {
                        state: WorkerState::Idle,
                        engine: engine_after(engine0, all_requests.take(replies@.len() as int)),
                    },
                ),
                forall|i: int|
                    0 <= i < replies@.len() ==> replies@[i].id == all_requests[i].id && outcome_of(
                        replies@[i].result,
                    ) == engine_states(engine0, all_requests)[i].response_spec(all_requests[i]),
                self.stats == stats0,
                self.options == options0,
            decreases self.queue@.len(),
        {
            let ghost served = replies@.len() as int;
            proof {
                assert(self.queue@.len() > 0);
                assert(served < all_requests.len());
                assert(self.workers@[worker_index as int] == (Worker {
                    state: WorkerState::Idle,
                    engine: engine_after(engine0, all_requests.take(served)),
                }));
                assert(self.queue@[0] == all_requests[served]);
            }
            let reply = self.serve_next(worker_index);
            match reply {
                Some(reply) => {
                    replies.push(reply);
                    proof {
                        assert(all_requests.take(served + 1).drop_last() =~= all_requests.take(
                            served,
                        ));
                        assert(all_requests.take(served + 1).last() == all_requests[served]);
                        assert(engine_after(engine0, all_requests.take(served + 1)) == engine_after(
                            engine0,
                            all_requests.take(served),
                        ).next_spec(all_requests[served]));
                        assert(self.queue@ =~= all_requests.skip(served + 1));
                        assert(self.workers@ =~= workers0.update(
                            worker_index as int,
                            Worker {
                                state: WorkerState::Idle,
                                engine: engine_after(engine0, all_requests.take(served + 1)),
                            },
                        ));
                        assert(engine_states(engine0, all_requests)[served] == engine_after(
                            engine0,
                            all_requests.take(served),
                        ));
                    }
                },
                None => {
                    proof {
                        assert(false);
                    }
                },
            }
        }
        proof {
            assert(self.queue@.len() == 0);
            assert(replies@.len() == all_requests.len());
            assert(all_requests.take(replies@.len() as int) =~= all_requests);
            assert(self.workers@ == workers0.update(
                worker_index as int,
                Worker { state: WorkerState::Idle, engine: engine_after(engine0, all_requests) },
            ));
        }
        replies
    }

    /// The public operation: format one request through the pool.
    ///
    /// The admission decision runs first — spawn a worker, reserve an idle
    /// one, or just wait — then the request joins the queue, the queue is
    /// served in arrival order, and the caller gets back exactly the reply
    /// to its own request: what the serving engine answers to this payload.
    /// On a disposed dispatcher the call fails with the
    /// dispatcher-unavailable error and changes nothing.
    pub fn format(&mut self, request: FormatRequest, available_memory: u64) -> (result:
        FormatResult)
        requires
            old(self).wf(),
            old(self).stats.total_workers < usize::MAX,
        ensures
            final(self).wf(),
            format_post(*old(self), *final(self), request, available_memory, result),
    {
        if self.disposed {
            return Err(FormatError::ChannelUnavailable);
        }
        let submitted = self.submit(request, available_memory);
        match submitted {
            Err(error) => Err(error),
            Ok(_) => {
                proof {
                    lemma_first_idle_exists(self.workers@);
                }
                let serving = self.find_idle_worker();
                match serving {
                    None => {
                        proof {
                            assert(false);
                        }
                        Err(FormatError::ChannelUnavailable)
                    },
                    Some(worker_index) => {
                        let mut replies = self.drain_with(worker_index);
                        let last = replies.pop();
                        match last {
                            None => {
                                proof {
                                    assert(false);
                                }
                                Err(FormatError::ChannelUnavailable)
                            },
                            Some(reply) => {
                                match reply.result {
                                    Ok(text) => Ok(text),
                                    Err(message) => Err(FormatError::Engine(message)),
                                }
                            },
                        }
                    },
                }
            },
        }
    }
}

/// When everything before position `i` is not idle and position `i` is,
/// the first idle worker is at `i`.
pub proof fn lemma_first_idle_prefix<F>(workers: Seq<Worker<F>>, i: int)
    requires
        0 <= i < workers.len(),
        workers[i].state == WorkerState::Idle,
        forall|j: int| 0 <= j < i ==> workers[j].state != WorkerState::Idle,
    ensures
        first_idle_index(workers) == i,
    decreases i,
{
    if i > 0 {
        lemma_first_idle_prefix(workers.drop_first(), i - 1);
    }
}

} // verus!

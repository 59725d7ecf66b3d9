use dprint_plugin_prettier::capacity::admit_request;
use dprint_plugin_prettier::capacity::complete_handoff;
use dprint_plugin_prettier::capacity::retire_one;
use dprint_plugin_prettier::capacity::should_retire;
use dprint_plugin_prettier::capacity::AdmissionOutcome;
use dprint_plugin_prettier::capacity::CapacityStats;
use dprint_plugin_prettier::channel::Channel;
use dprint_plugin_prettier::channel::CreateChannelOptions;
use dprint_plugin_prettier::channel::FormatError;
use dprint_plugin_prettier::channel::FormatRequest;
use dprint_plugin_prettier::config::PrettierConfig;
use dprint_plugin_prettier::formatter::EchoFormatter;
use dprint_plugin_prettier::formatter::StrictFormatter;
use dprint_plugin_prettier::handler::PrettierPluginHandler;
use dprint_plugin_prettier::memory::memory_gate;
use dprint_plugin_prettier::worker::handle_idle_timer;
use dprint_plugin_prettier::worker::WorkerState;

fn request(id: u64, path: &str, text: &str) -> FormatRequest {
    FormatRequest {
        id,
        file_path: String::from(path),
        file_text: String::from(text),
        config: PrettierConfig { main: Vec::new(), extension_overrides: Vec::new() },
        range: None,
    }
}

fn channel() -> Channel<EchoFormatter> {
    Channel::new(CreateChannelOptions { avg_isolate_memory_usage: 1000 })
}

#[test]
fn first_request_spawns_even_without_memory() {
    let mut stats = CapacityStats::new();
    let outcome = admit_request(&mut stats, false);
    assert_eq!(outcome, AdmissionOutcome::Spawned);
    assert_eq!(stats.total_workers, 1);
    assert_eq!(stats.pending_workers, 1);
}

#[test]
fn admission_reserves_an_idle_worker() {
    let mut stats = CapacityStats { pending_workers: 1, total_workers: 1 };
    let outcome = admit_request(&mut stats, false);
    assert_eq!(outcome, AdmissionOutcome::ReservedIdle);
    assert_eq!(stats.pending_workers, 0);
    assert_eq!(stats.total_workers, 1);
    complete_handoff(&mut stats, outcome);
    assert_eq!(stats.pending_workers, 1);
    assert_eq!(stats.total_workers, 1);
}

#[test]
fn admission_queues_when_no_idle_worker_and_no_memory() {
    let mut stats = CapacityStats { pending_workers: 0, total_workers: 1 };
    let outcome = admit_request(&mut stats, false);
    assert_eq!(outcome, AdmissionOutcome::Queued);
    assert_eq!(stats.pending_workers, 0);
    assert_eq!(stats.total_workers, 1);
}

#[test]
fn counters_stay_consistent_through_a_run() {
    // pending_workers never exceeds total_workers, and once a request was
    // admitted the pool never drops back to zero workers
    let mut stats = CapacityStats::new();
    let outcomes = [
        admit_request(&mut stats, false),
        admit_request(&mut stats, true),
        admit_request(&mut stats, true),
    ];
    assert!(stats.pending_workers <= stats.total_workers);
    assert!(stats.total_workers >= 1);
    for outcome in outcomes {
        complete_handoff(&mut stats, outcome);
        assert!(stats.pending_workers <= stats.total_workers);
        assert!(stats.total_workers >= 1);
    }
    while should_retire(&stats) {
        retire_one(&mut stats);
        assert!(stats.pending_workers <= stats.total_workers);
        assert!(stats.total_workers >= 1);
    }
}

#[test]
fn single_spawn_per_burst() {
    // a burst of requests before any worker exists spawns exactly one worker
    let mut pool = channel();
    let first = pool.submit(request(1, "a.ts", "a"), 0).unwrap();
    let second = pool.submit(request(2, "b.ts", "b"), 0).unwrap();
    let third = pool.submit(request(3, "c.ts", "c"), 0).unwrap();
    assert_eq!(first, AdmissionOutcome::Spawned);
    assert_ne!(second, AdmissionOutcome::Spawned);
    assert_ne!(third, AdmissionOutcome::Spawned);
    assert_eq!(pool.stats.total_workers, 1);
    assert_eq!(pool.workers.len(), 1);
    assert_eq!(pool.queue.len(), 3);
}

#[test]
fn memory_gate_blocks_growth() {
    // a probe reading at the 2.2x threshold admits no second worker
    assert!(!memory_gate(2200, 1000));
    assert!(memory_gate(2201, 1000));
    let mut stats = CapacityStats { pending_workers: 0, total_workers: 1 };
    let outcome = admit_request(&mut stats, memory_gate(2200, 1000));
    assert_eq!(outcome, AdmissionOutcome::Queued);
    assert_eq!(stats.total_workers, 1);
    let outcome = admit_request(&mut stats, memory_gate(2201, 1000));
    assert_eq!(outcome, AdmissionOutcome::Spawned);
    assert_eq!(stats.total_workers, 2);
}

#[test]
fn last_worker_is_protected() {
    // with exactly one worker, a fired idle timer retires nothing
    let mut pool = channel();
    pool.submit(request(1, "a.ts", "a"), 0).unwrap();
    let replies = pool.drain_with(0);
    assert_eq!(replies.len(), 1);
    assert_eq!(pool.stats.total_workers, 1);
    assert_eq!(pool.stats.pending_workers, 1);
    for _ in 0..3 {
        let retired = pool.idle_timeout(0);
        assert!(!retired);
        assert_eq!(pool.workers[0].state, WorkerState::Idle);
        assert_eq!(pool.stats.total_workers, 1);
    }
}

#[test]
fn idle_retirement_takes_exactly_one_worker() {
    // with two idle workers, one timer retires one of them and the second
    // timer retires nothing more
    let mut stats = CapacityStats { pending_workers: 2, total_workers: 2 };
    let first = handle_idle_timer(&mut stats);
    assert!(first);
    assert_eq!(stats.pending_workers, 1);
    assert_eq!(stats.total_workers, 1);
    let second = handle_idle_timer(&mut stats);
    assert!(!second);
    assert_eq!(stats.pending_workers, 1);
    assert_eq!(stats.total_workers, 1);
}

#[test]
fn replies_match_their_own_requests() {
    // whatever the completion order across workers would be, each request
    // gets exactly one reply, and it answers that request's own payload
    let mut pool = channel();
    pool.submit(request(11, "a.ts", "alpha"), 0).unwrap();
    pool.submit(request(22, "b.ts", "beta"), 0).unwrap();
    pool.submit(request(33, "c.ts", "gamma"), 0).unwrap();
    let replies = pool.drain_with(0);
    assert_eq!(replies.len(), 3);
    let expected = [(11, "alpha"), (22, "beta"), (33, "gamma")];
    for (reply, (id, text)) in replies.iter().zip(expected.iter()) {
        assert_eq!(reply.id, *id);
        assert_eq!(reply.result.as_ref().unwrap().as_deref(), Some(*text));
    }
    assert_eq!(pool.queue.len(), 0);
}

#[test]
fn format_answers_the_callers_request() {
    // the scenario: one worker pre-spawned, then one more request — the
    // caller gets the engine's answer to its own text within one dequeue
    // cycle and the worker count stays at one
    let mut handler: PrettierPluginHandler<EchoFormatter> = PrettierPluginHandler::new();
    let warmup = handler.format(request(1, "warmup.ts", "let a = 1"), 0);
    assert_eq!(warmup.unwrap().as_deref(), Some("let a = 1"));
    assert_eq!(handler.channel.stats.total_workers, 1);
    let result = handler.format(request(2, "file.ts", "const x=1"), 0);
    assert_eq!(result.unwrap().as_deref(), Some("const x=1"));
    assert_eq!(handler.channel.stats.total_workers, 1);
    assert_eq!(handler.channel.stats.pending_workers, 1);
}

#[test]
fn range_requests_are_answered_unchanged() {
    let mut handler: PrettierPluginHandler<EchoFormatter> = PrettierPluginHandler::new();
    let mut ranged = request(5, "file.ts", "const x=1");
    ranged.range = Some((0, 4));
    let result = handler.format(ranged, 0);
    assert!(matches!(result, Ok(None)));
    assert_eq!(handler.channel.stats.total_workers, 0);
}

#[test]
fn disposed_dispatcher_refuses_requests() {
    let mut pool = channel();
    pool.submit(request(1, "a.ts", "a"), 0).unwrap();
    pool.drain_with(0);
    pool.dispose();
    assert_eq!(pool.workers[0].state, WorkerState::Retired);
    let result = pool.format(request(2, "b.ts", "b"), 0);
    assert!(matches!(result, Err(FormatError::ChannelUnavailable)));
    let submitted = pool.submit(request(3, "c.ts", "c"), 0);
    assert!(matches!(submitted, Err(FormatError::ChannelUnavailable)));
}

#[test]
fn format_serves_the_whole_queue_in_arrival_order() {
    let mut pool = channel();
    pool.submit(request(1, "a.ts", "first"), 0).unwrap();
    pool.submit(request(2, "b.ts", "second"), 0).unwrap();
    let result = pool.format(request(3, "c.ts", "third"), 0);
    assert_eq!(result.unwrap().as_deref(), Some("third"));
    assert_eq!(pool.queue.len(), 0);
    assert_eq!(pool.stats.total_workers, 1);
}

#[test]
fn an_engine_failure_is_local_to_its_request() {
    let mut pool: Channel<StrictFormatter> =
        Channel::new(CreateChannelOptions { avg_isolate_memory_usage: 1000 });
    let failed = pool.format(request(1, "a.ts", ""), 0);
    match failed {
        Err(FormatError::Engine(message)) => assert_eq!(message, "nothing to format"),
        other => panic!("unexpected result: {:?}", other),
    }
    // the worker that failed is still alive and idle, and serves the next
    // request
    assert_eq!(pool.stats.total_workers, 1);
    assert_eq!(pool.workers[0].state, WorkerState::Idle);
    let ok = pool.format(request(2, "b.ts", "const x=1"), 0);
    assert_eq!(ok.unwrap().as_deref(), Some("const x=1"));
}

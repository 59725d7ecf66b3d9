//! The memory probe and the admission gate built on it.
//!
//! Spawning a formatting worker costs hundreds of megabytes, so admission
//! control asks the operating system for the available memory and admits a
//! new worker only when that reading clears a conservative multiple (2.2x)
//! of the average per-worker usage. The probe is advisory: a low or failed
//! reading only means no extra worker is spawned.

use vstd::prelude::*;

use crate::capacity::spawn_condition;
use crate::pool::admit_step;
use crate::pool::PoolState;

verus! {

/// The comfortable-headroom test, with the 2.2 safety multiplier written as
/// the exact rational comparison `available > avg * 11/5`.
pub open spec fn memory_comfortable(available: u64, avg_memory_usage: u64) -> bool {
    5 * available > 11 * avg_memory_usage
}

/// Reads the system's currently available memory, in bytes.
///
/// Relies on sysinfo's `System::available_memory` after a memory refresh;
/// the reading depends on the machine's state at the moment of the call, so
/// nothing can be promised of it.
#[verifier::external_body]
pub fn system_available_memory() -> u64 {
    let mut sys = sysinfo::System::new();
    sys.refresh_memory_specifics(sysinfo::MemoryRefreshKind::nothing().with_ram());
    sys.available_memory()
}

/// Reads the system's currently available memory, in bytes.
pub fn get_system_available_memory() -> u64 {
    system_available_memory()
}

/// Whether the given memory reading admits one more worker of the given
/// average footprint: the reading must exceed 2.2 times the footprint.
pub fn memory_gate(available: u64, avg_memory_usage: u64) -> (comfortable: bool)
    ensures
        comfortable == memory_comfortable(available, avg_memory_usage),
{
    (available as u128) * 5 > (avg_memory_usage as u128) * 11
}

/// Whether the system has a comfortable fixed amount of memory to spare for
/// one more worker.
pub fn has_memory_available() -> bool {
    let available_memory = get_system_available_memory();
    available_memory > 500_000
}

/// The memory gate blocks growth: when the probe reads at or below 2.2
/// times the average per-worker usage and a sole worker is busy, an
/// incoming request does not spawn a second worker — the admission decision
/// leaves the counters untouched and the request waits in the queue.
pub proof fn lemma_memory_gate_blocks_growth(available: u64, avg_memory_usage: u64, s: PoolState)
    requires
        5 * available <= 11 * avg_memory_usage,
        s.pending == 0,
        s.total == 1,
    ensures
        !memory_comfortable(available, avg_memory_usage),
        admit_step(s, memory_comfortable(available, avg_memory_usage)).total == s.total,
        admit_step(s, memory_comfortable(available, avg_memory_usage)).pending == s.pending,
{
    assert(!spawn_condition(s.pending, s.total, false));
}

} // verus!

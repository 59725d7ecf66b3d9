//! An elastic worker pool with memory-aware admission control for an
//! expensive, single-threaded text-formatting engine.
//!
//! The pool tracks how many formatting workers exist and how many are idle
//! in a pair of shared counters, spawns at most one new worker per burst of
//! demand, gates growth behind a heuristic reading of available system
//! memory, and retires idle workers while always keeping at least one
//! alive. Around it stand the plugin's configuration resolution, its
//! startup-snapshot handling, and its identity.

pub mod capacity;
pub mod channel;
pub mod config;
pub mod format_text;
pub mod formatter;
pub mod handler;
pub mod memory;
pub mod pool;
pub mod snapshot;
pub mod util;
pub mod wasm_plugin;
pub mod worker;

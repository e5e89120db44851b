//! Locate the process's argument vector (and optionally the environment block
//! that follows it) and rewrite it in place, so that process listings show a
//! different command line.
//!
//! The library models the OS-owned memory as plain values: a pointer array is
//! a sequence of [`ArgSlot`]s as read from memory, and a handle keeps a mirror
//! of the bytes it owns. Reading and writing the real memory is left to the
//! caller; every decision about what to read and what to write is made here.

mod error;
mod handle;
mod locate;
mod region;

pub use error::EnvError;
pub use handle::{
    apply_sets, argv_and_environ, argv_only, compose, joins, lemma_revert_idempotent, lemma_revert_restores, HandleView, KillMyArgv,
};
pub use locate::{
    addr, address_below, check_guess, comp_argv, comp_argv_spec, from_stack_walking, has_fallback,
    is_first_hit, ArgvLocation, LocateConfig, LocateStep,
};
pub use region::{
    argv_addrs, from_env, joined, leading_nonnull, slots_laid_out, lemma_scan_stops_at_null, scan, scan_spec, slots_fit, stops_at, strings_of,
    visited_count, ArgSlot, MemRegion, RegionView,
};

//! Round-robin preemptive process scheduler for a single-core kernel.
//!
//! The scheduler owns a rotating queue of processes, assigns process
//! identifiers at admission, and performs the context switch that moves the
//! live register state from the outgoing process to the next ready one.
//! `scheduler` holds the core algorithm, `global` the lock-guarded façade
//! with its two-phase (constructed, then started) lifecycle, and `laws` the
//! proved scheduling laws.

pub mod global;
pub mod laws;
pub mod process;
pub mod scheduler;

//! The process control block as the scheduler sees it.
//!
//! The surrounding kernel constructs processes and drives their readiness;
//! the scheduler only reads and writes the fields modeled here: the
//! scheduling state, the saved execution context with its identity tag, and
//! the handle to the process's address-space/allocator context.

use vstd::prelude::*;

verus! {

/// Identifier assigned to a process by the scheduler at admission.
pub type Id = u64;

/// Scheduling state of a process.
///
/// The scheduler itself only distinguishes `Ready` (eligible to run right
/// now) from the rest; `Waiting` and `Dead` are written by other kernel
/// subsystems, and the scheduler writes `Running` and the caller-supplied
/// state on every switch.
#[derive(Clone, Copy, Debug, PartialEq, Eq, Structural)]
pub enum State {
    /// Eligible to be selected by the scan.
    Ready,
    /// Currently owns the live register state.
    Running,
    /// Blocked until some external event flips it back to `Ready`.
    Waiting,
    /// Terminated; kept only until the termination logic removes it.
    Dead,
}

/// Saved execution context of a process: the snapshot of its CPU registers
/// while it is not running.
#[derive(Clone, Copy, Debug, PartialEq, Eq, Structural)]
pub struct TrapFrame {
    /// Identity tag: the `Id` of the process this context belongs to.
    pub tpidr: u64,
    /// Saved stack pointer.
    pub sp: u64,
    /// Saved exception link register (resume address).
    pub elr: u64,
    /// Saved program status word.
    pub spsr: u64,
}

/// Handle to a process's address-space/allocator context: the pointer-sized
/// value that the memory-management subsystem reads to resolve addresses for
/// the currently running process.
#[derive(Clone, Copy, Debug, PartialEq, Eq, Structural)]
pub struct AllocatorContext {
    /// Base of the process's heap/address-space context.
    pub base: u64,
}

/// A process, as enqueued by the scheduler.
#[derive(Clone, Copy, Debug, PartialEq, Eq, Structural)]
pub struct Process {
    /// Current scheduling state.
    pub state: State,
    /// Saved execution context, owned by the process while it is not running.
    pub trap_frame: TrapFrame,
    /// The process's address-space/allocator context.
    pub allocator: AllocatorContext,
}

impl Process {
    /// The process's identifier: the identity tag of its saved context.
    pub open spec fn spec_id(self) -> Id {
        self.trap_frame.tpidr
    }

    /// Whether the process is eligible to run right now.
    pub open spec fn spec_is_ready(self) -> bool {
        self.state is Ready
    }

    /// Returns the process's identifier.
    pub fn get_id(&self) -> (r: Id)
        ensures
            r == self.spec_id(),
    {
        self.trap_frame.tpidr
    }

    /// Readiness capability check: true iff the process is eligible to run
    /// right now.
    pub fn is_ready(&self) -> (r: bool)
        ensures
            r == self.spec_is_ready(),
    {
        match self.state {
            State::Ready => true,
            _ => false,
        }
    }
}

} // verus!

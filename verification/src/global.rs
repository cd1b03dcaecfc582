//! The process-wide scheduler façade.
//!
//! One scheduler serves the whole machine; trap and syscall handlers reach
//! it through this façade. In the running kernel a mutual-exclusion lock
//! serializes every operation on the single logical execution unit; here
//! that exclusive access is modeled directly by `&mut` access to the
//! façade, so the lock's guarantee — at most one operation inside the
//! scheduler at a time — is carried by the type system.
//!
//! The façade has a two-phase lifecycle: constructed not-yet-started, then
//! started exactly once by [`GlobalScheduler::start`]. Calling any other
//! operation before `start` is a contract violation by the caller — the
//! original kernel aborts on it — and is therefore excluded by
//! precondition; the unverified trap layer must check
//! [`GlobalScheduler::is_started`] holds before calling, and the executable
//! fallback for a violated precondition is a panic, matching the original
//! fatal abort.

use vstd::prelude::*;

use crate::process::{Id, Process, State, TrapFrame};
use crate::scheduler::{
    spec_add, spec_add_id, spec_fresh, spec_queue_contains, spec_select, spec_switch, Scheduler,
};

verus! {

/// Process scheduler façade for the entire machine: the not-yet-started
/// state holds `None`, the started state holds the one scheduler instance.
pub struct GlobalScheduler(pub Option<Scheduler>);

impl GlobalScheduler {
    /// Whether `start` has completed.
    pub open spec fn is_started(self) -> bool {
        self.0 is Some
    }

    /// The wrapped scheduler, once started.
    pub open spec fn sched(self) -> Scheduler
        recommends
            self.is_started(),
    {
        self.0->0
    }

    /// Well-formedness: once started, the wrapped scheduler is well-formed.
    pub open spec fn wf(self) -> bool {
        self.is_started() ==> self.sched().wf()
    }

    /// Returns an uninitialized wrapper around a local scheduler; `start`
    /// must be called exactly once before any other operation.
    pub fn uninitialized() -> (r: GlobalScheduler)
        ensures
            !r.is_started(),
            r.wf(),
    {
        GlobalScheduler(None)
    }

    /// The one-time initializer: constructs the scheduler, empty. The
    /// surrounding kernel then admits the initial processes and performs
    /// the first transfer of control into user space through its external
    /// execution-transfer primitive, which does not return under normal
    /// operation.
    pub fn start(&mut self)
        requires
            !old(self).is_started(),
        ensures
            final(self).is_started(),
            final(self).wf(),
            final(self).sched().view() == spec_fresh(),
    {
        self.0 = Some(Scheduler::new());
    }

    /// Adds a process to the scheduler's queue and returns that process's
    /// identifier, as described on [`Scheduler::add`].
    pub fn add(&mut self, process: Process) -> (r: Option<Id>)
        requires
            old(self).is_started(),
            old(self).wf(),
        ensures
            final(self).is_started(),
            final(self).wf(),
            final(self).sched().view() == spec_add(old(self).sched().view(), process),
            r == spec_add_id(old(self).sched().view()),
    {
        match &mut self.0 {
            Some(s) => s.add(process),
            None => unreached(),
        }
    }

    /// Performs a context switch using `tf`: saves `tf` into the outgoing
    /// process, sets its state to `new_state`, and restores the next ready
    /// process's saved context into `tf`, as described on
    /// [`Scheduler::switch`]. Returns the identifier of the process
    /// switched into `tf`, or `None` when the queue is empty or nothing is
    /// ready yet; in the latter case the caller waits for an asynchronous
    /// event and calls [`GlobalScheduler::resume`].
    #[must_use]
    pub fn switch(&mut self, new_state: State, tf: &mut TrapFrame) -> (r: Option<Id>)
        requires
            old(self).is_started(),
            old(self).wf(),
            old(self).sched().view().queue.len() > 0 ==> old(tf).tpidr == old(
                self,
            ).sched().view().queue[0].spec_id(),
        ensures
            final(self).is_started(),
            final(self).wf(),
            ({
                let (v2, tf2, r2) = spec_switch(old(self).sched().view(), new_state, *old(tf));
                final(self).sched().view() == v2 && *final(tf) == tf2 && r == r2
            }),
    {
        match &mut self.0 {
            Some(s) => s.switch(new_state, tf),
            None => unreached(),
        }
    }

    /// Scans another lap for a ready process, completing a switch whose
    /// scan found nothing ready, as described on [`Scheduler::resume`].
    /// The caller invokes the kernel's wait-for-event primitive between
    /// laps; this operation blocks nothing itself.
    #[must_use]
    pub fn resume(&mut self, tf: &mut TrapFrame) -> (r: Option<Id>)
        requires
            old(self).is_started(),
            old(self).wf(),
        ensures
            final(self).is_started(),
            final(self).wf(),
            ({
                let (v2, tf2, r2) = spec_select(old(self).sched().view(), *old(tf));
                final(self).sched().view() == v2 && *final(tf) == tf2 && r == r2
            }),
    {
        match &mut self.0 {
            Some(s) => s.resume(tf),
            None => unreached(),
        }
    }

    /// Reports whether no enqueued process carries identifier
    /// `pending_pid`.
    pub fn is_finished(&self, pending_pid: Id) -> (r: bool)
        requires
            self.is_started(),
        ensures
            r == !spec_queue_contains(self.sched().view().queue, pending_pid),
    {
        match &self.0 {
            Some(s) => s.is_finished(pending_pid),
            None => unreached(),
        }
    }

    /// Reports whether the queue holds zero processes.
    pub fn is_empty(&self) -> (r: bool)
        requires
            self.is_started(),
        ensures
            r == (self.sched().view().queue.len() == 0),
    {
        match &self.0 {
            Some(s) => s.is_empty(),
            None => unreached(),
        }
    }
}

} // verus!

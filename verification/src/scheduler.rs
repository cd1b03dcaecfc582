//! The core round-robin scheduler.
//!
//! The scheduler owns a rotating queue of processes (front = next candidate),
//! the process-identifier allocator, the identifier of the process whose
//! saved context was most recently made live, and the single-writer handle to
//! the active address-space/allocator context.
//!
//! Its abstract state is [`SchedView`]; every operation's contract is stated
//! as a transition on that view.

use vstd::prelude::*;

use crate::process::{AllocatorContext, Id, Process, State, TrapFrame};
use std::collections::VecDeque;

verus! {

/// Abstract state of a [`Scheduler`].
#[verifier::ext_equal]
pub ghost struct SchedView {
    /// The queue, front first.
    pub queue: Seq<Process>,
    /// Identifier of the process whose saved context was most recently made
    /// live, or `None` before the first admission.
    pub current: Option<Id>,
    /// Highest identifier ever assigned, or `None` if none was.
    pub last_id: Option<Id>,
    /// The active address-space/allocator context, repointed on every
    /// successful selection.
    pub active: Option<AllocatorContext>,
}

/// No two enqueued processes share an identifier.
pub open spec fn ids_distinct(q: Seq<Process>) -> bool {
    forall|i: int, j: int|
        0 <= i < j < q.len() ==> q[i].spec_id() != q[j].spec_id()
}

impl SchedView {
    /// Well-formedness: identifiers are unique, no enqueued identifier
    /// exceeds the highest assigned one, and `current` is an assigned
    /// identifier.
    pub open spec fn wf(self) -> bool {
        &&& ids_distinct(self.queue)
        &&& match self.last_id {
            None => self.queue.len() == 0,
            Some(l) => forall|i: int|
                0 <= i < self.queue.len() ==> #[trigger] self.queue[i].spec_id() <= l,
        }
        &&& match self.current {
            None => true,
            Some(c) => self.last_id matches Some(l) && c <= l,
        }
    }
}

/// The state of a scheduler that has never admitted a process.
pub open spec fn spec_fresh() -> SchedView {
    SchedView { queue: Seq::<Process>::empty(), current: None, last_id: None, active: None }
}

/// The identifier the next admission will assign: `0` if none was ever
/// assigned, one more than the last otherwise, and `None` once the
/// identifier space is exhausted.
pub open spec fn spec_next_id(last_id: Option<Id>) -> Option<Id> {
    match last_id {
        None => Some(0u64),
        Some(l) => if l == u64::MAX {
            None
        } else {
            Some((l + 1) as u64)
        },
    }
}

/// `p` with `id` stamped into its saved context's identity tag.
pub open spec fn spec_stamped(p: Process, id: Id) -> Process {
    Process {
        state: p.state,
        trap_frame: TrapFrame {
            tpidr: id,
            sp: p.trap_frame.sp,
            elr: p.trap_frame.elr,
            spsr: p.trap_frame.spsr,
        },
        allocator: p.allocator,
    }
}

/// The state after admitting `p`: on success the stamped process is appended
/// to the tail, `last_id` advances, and `current` is set iff it was unset;
/// on identifier exhaustion nothing changes.
pub open spec fn spec_add(v: SchedView, p: Process) -> SchedView {
    match spec_next_id(v.last_id) {
        None => v,
        Some(id) => SchedView {
            queue: v.queue.push(spec_stamped(p, id)),
            current: if v.current is None {
                Some(id)
            } else {
                v.current
            },
            last_id: Some(id),
            active: v.active,
        },
    }
}

/// The identifier admission returns: the newly assigned one, or `None` on
/// identifier exhaustion.
pub open spec fn spec_add_id(v: SchedView) -> Option<Id> {
    spec_next_id(v.last_id)
}

/// `p` as the outgoing process is re-enqueued: the live context `tf` saved
/// into it and its state set to the caller-supplied one. Its identity tag is
/// carried inside `tf`, whose tag equals the outgoing process's identifier.
pub open spec fn spec_saved(p: Process, tf: TrapFrame, st: State) -> Process {
    Process { state: st, trap_frame: tf, allocator: p.allocator }
}

/// The queue after outgoing handling: the head is saved and re-appended at
/// the tail.
pub open spec fn spec_rotated(q: Seq<Process>, tf: TrapFrame, st: State) -> Seq<Process>
    recommends
        q.len() > 0,
{
    q.subrange(1, q.len() as int).push(spec_saved(q[0], tf, st))
}

/// Index of the first ready process at or after position `i`, if any.
pub open spec fn find_ready_from(q: Seq<Process>, i: int) -> Option<int>
    recommends
        0 <= i <= q.len(),
    decreases q.len() - i,
    when 0 <= i <= q.len()
{
    if i >= q.len() {
        None
    } else if q[i].spec_is_ready() {
        Some(i)
    } else {
        find_ready_from(q, i + 1)
    }
}

/// `p` marked as the running process.
pub open spec fn spec_running(p: Process) -> Process {
    Process { state: State::Running, trap_frame: p.trap_frame, allocator: p.allocator }
}

/// The queue after the candidate at index `k` is selected: the candidates
/// scanned and rejected before it have rotated to the tail, and the selected
/// process sits at the head, marked running, so that it is the outgoing
/// process of the next switch.
pub open spec fn spec_selected_queue(q: Seq<Process>, k: int) -> Seq<Process>
    recommends
        0 <= k < q.len(),
{
    seq![spec_running(q[k])] + q.subrange(k + 1, q.len() as int) + q.subrange(0, k)
}

/// One scan lap over the queue: the state, live context, and result after
/// selecting the first ready process, or everything unchanged when none is
/// ready.
pub open spec fn spec_select(v: SchedView, tf: TrapFrame) -> (SchedView, TrapFrame, Option<Id>) {
    match find_ready_from(v.queue, 0) {
        None => (v, tf, None),
        Some(k) => {
            let c = v.queue[k];
            (
                SchedView {
                    queue: spec_selected_queue(v.queue, k),
                    current: Some(c.spec_id()),
                    last_id: v.last_id,
                    active: Some(c.allocator),
                },
                c.trap_frame,
                Some(c.spec_id()),
            )
        },
    }
}

/// A full context switch: outgoing handling followed by one scan lap, or
/// everything unchanged when the queue is empty.
pub open spec fn spec_switch(v: SchedView, st: State, tf: TrapFrame) -> (
    SchedView,
    TrapFrame,
    Option<Id>,
) {
    if v.queue.len() == 0 {
        (v, tf, None)
    } else {
        spec_select(
            SchedView {
                queue: spec_rotated(v.queue, tf, st),
                current: v.current,
                last_id: v.last_id,
                active: v.active,
            },
            tf,
        )
    }
}

/// Scanning past only not-ready processes does not change which process is
/// found.
pub proof fn lemma_skip_unready(q: Seq<Process>, i: int, k: int)
    requires
        0 <= i <= k <= q.len(),
        forall|j: int| i <= j < k ==> !(#[trigger] q[j].spec_is_ready()),
    ensures
        find_ready_from(q, i) == find_ready_from(q, k),
    decreases k - i,
{
    if i < k {
        lemma_skip_unready(q, i + 1, k);
    }
}

/// What a successful or failed search for a ready process says about the
/// queue.
pub proof fn lemma_find_ready_from(q: Seq<Process>, i: int)
    requires
        0 <= i <= q.len(),
    ensures
        match find_ready_from(q, i) {
            Some(k) => i <= k < q.len() && q[k].spec_is_ready() && forall|j: int|
                i <= j < k ==> !(#[trigger] q[j].spec_is_ready()),
            None => forall|j: int| i <= j < q.len() ==> !(#[trigger] q[j].spec_is_ready()),
        },
    decreases q.len() - i,
{
    if i < q.len() && !q[i].spec_is_ready() {
        lemma_find_ready_from(q, i + 1);
    }
}

/// Whether some enqueued process carries identifier `pid`.
pub open spec fn spec_queue_contains(q: Seq<Process>, pid: Id) -> bool {
    exists|i: int| 0 <= i < q.len() && q[i].spec_id() == pid
}

/// Index of the first process at or after position `i` that carries
/// identifier `pid`, if any.
pub open spec fn find_pid_from(q: Seq<Process>, pid: Id, i: int) -> Option<int>
    recommends
        0 <= i <= q.len(),
    decreases q.len() - i,
    when 0 <= i <= q.len()
{
    if i >= q.len() {
        None
    } else if q[i].spec_id() == pid {
        Some(i)
    } else {
        find_pid_from(q, pid, i + 1)
    }
}

/// What a successful or failed search for `pid` says about the queue.
pub proof fn lemma_find_pid_from(q: Seq<Process>, pid: Id, i: int)
    requires
        0 <= i <= q.len(),
    ensures
        match find_pid_from(q, pid, i) {
            Some(k) => i <= k < q.len() && q[k].spec_id() == pid && forall|j: int|
                i <= j < k ==> q[j].spec_id() != pid,
            None => forall|j: int| i <= j < q.len() ==> q[j].spec_id() != pid,
        },
    decreases q.len() - i,
{
    if i < q.len() && q[i].spec_id() != pid {
        lemma_find_pid_from(q, pid, i + 1);
    }
}

/// Scanning past only processes with other identifiers does not change
/// which process is found.
pub proof fn lemma_skip_other_pids(q: Seq<Process>, pid: Id, i: int, k: int)
    requires
        0 <= i <= k <= q.len(),
        forall|j: int| i <= j < k ==> q[j].spec_id() != pid,
    ensures
        find_pid_from(q, pid, i) == find_pid_from(q, pid, k),
    decreases k - i,
{
    if i < k {
        lemma_skip_other_pids(q, pid, i + 1, k);
    }
}

/// A process with identifier `pid` is found exactly when one is enqueued.
pub proof fn lemma_find_pid_contains(q: Seq<Process>, pid: Id)
    ensures
        (find_pid_from(q, pid, 0) is Some) <==> spec_queue_contains(q, pid),
{
    lemma_find_pid_from(q, pid, 0);
    if find_pid_from(q, pid, 0) is None && spec_queue_contains(q, pid) {
        let w = choose|i: int| 0 <= i < q.len() && q[i].spec_id() == pid;
        assert(q[w].spec_id() != pid);
    }
}

/// `p` flipped to ready.
pub open spec fn spec_ready(p: Process) -> Process {
    Process { state: State::Ready, trap_frame: p.trap_frame, allocator: p.allocator }
}

/// A queue with the same identifiers at the same positions keeps the view
/// well-formed.
pub proof fn lemma_same_ids_wf(v: SchedView, q2: Seq<Process>)
    requires
        v.wf(),
        q2.len() == v.queue.len(),
        forall|j: int| 0 <= j < q2.len() ==> #[trigger] q2[j].spec_id() == v.queue[j].spec_id(),
    ensures
        (SchedView { queue: q2, current: v.current, last_id: v.last_id, active: v.active }).wf(),
{
}

/// The source index in the pre-selection queue of the entry at index `i` of
/// the post-selection queue.
pub open spec fn spec_sel_src(n: int, k: int, i: int) -> int {
    if i == 0 {
        k
    } else if i <= n - 1 - k {
        k + i
    } else {
        i - (n - k)
    }
}

/// Selection preserves well-formedness: it only rotates the queue and
/// changes states, so identifiers stay unique and bounded.
pub proof fn lemma_selected_wf(v: SchedView, k: int)
    requires
        v.wf(),
        0 <= k < v.queue.len(),
    ensures
        (SchedView {
            queue: spec_selected_queue(v.queue, k),
            current: Some(v.queue[k].spec_id()),
            last_id: v.last_id,
            active: Some(v.queue[k].allocator),
        }).wf(),
{
    let q = v.queue;
    let n = q.len() as int;
    let q2 = spec_selected_queue(q, k);
    assert(q2.len() == n);
    assert forall|i: int| 0 <= i < n implies #[trigger] q2[i].spec_id() == q[spec_sel_src(n, k, i)].spec_id() by {
        if i == 0 {
            assert(q2[0] == spec_running(q[k]));
        } else if i <= n - 1 - k {
            assert(q2[i] == q[k + i]);
        } else {
            assert(q2[i] == q[i - (n - k)]);
        }
    }
    assert forall|i: int, j: int| 0 <= i < j < n implies q2[i].spec_id() != q2[j].spec_id() by {
        let si = spec_sel_src(n, k, i);
        let sj = spec_sel_src(n, k, j);
        assert(0 <= si < n && 0 <= sj < n && si != sj);
        if si < sj {
            assert(q[si].spec_id() != q[sj].spec_id());
        } else {
            assert(q[sj].spec_id() != q[si].spec_id());
        }
    }
    let l = v.last_id->0;
    assert forall|i: int| 0 <= i < n implies #[trigger] q2[i].spec_id() <= l by {
        assert(q[spec_sel_src(n, k, i)].spec_id() <= l);
    }
}

impl Scheduler {
    /// Abstract state.
    pub open spec fn view(self) -> SchedView {
        SchedView {
            queue: self.processes@,
            current: self.current,
            last_id: self.last_id,
            active: self.active_allocator,
        }
    }

    /// Well-formedness of the concrete scheduler.
    pub open spec fn wf(self) -> bool {
        self.view().wf()
    }

    /// Returns a new scheduler with an empty queue.
    pub fn new() -> (s: Scheduler)
        ensures
            s.view() == spec_fresh(),
            s.wf(),
    {
        let s = Scheduler {
            processes: VecDeque::new(),
            current: None,
            last_id: None,
            active_allocator: None,
        };
        proof {
            assert(s.view().queue =~= spec_fresh().queue);
        }
        s
    }

    /// Admits a process: assigns it the next identifier, stamps that
    /// identifier into its saved context, and appends it to the queue's
    /// tail. The first admitted process becomes `current`; later admissions
    /// leave `current` unchanged. Returns `None`, changing nothing, when the
    /// identifier space is exhausted.
    pub fn add(&mut self, process: Process) -> (r: Option<Id>)
        requires
            old(self).wf(),
        ensures
            final(self).wf(),
            final(self).view() == spec_add(old(self).view(), process),
            r == spec_add_id(old(self).view()),
            old(self).last_id == Some(u64::MAX) ==> r is None && final(self).view() == old(
                self,
            ).view(),
    {
        let id: Id = match self.last_id {
            Some(last) => {
                if last == u64::MAX {
                    return None;
                }
                last + 1
            },
            None => 0,
        };
        let mut process = process;
        process.trap_frame.tpidr = id;
        self.processes.push_back(process);
        if self.current.is_none() {
            self.current = Some(id);
        }
        self.last_id = Some(id);
        Some(id)
    }

    /// Scans one full lap of the queue for a ready process. When one is
    /// found, completes the context switch to it: `current` is set to its
    /// identifier, its saved context is restored into the live buffer `tf`,
    /// the active address-space handle is repointed to its allocator
    /// context, it is marked running, and it is re-inserted at the head of
    /// the queue so that it is the outgoing process of the next switch.
    /// Candidates scanned and rejected rotate to the tail.
    ///
    /// Returns `None`, with the whole lap rotated back into place, when no
    /// process is ready: the caller must then wait for an asynchronous event
    /// (readiness is driven externally) and scan again. Together with that
    /// caller-side wait this is the idle path of [`Scheduler::switch`].
    pub fn resume(&mut self, tf: &mut TrapFrame) -> (r: Option<Id>)
        requires
            old(self).wf(),
        ensures
            final(self).wf(),
            ({
                let (v2, tf2, r2) = spec_select(old(self).view(), *old(tf));
                final(self).view() == v2 && *final(tf) == tf2 && r == r2
            }),
    {
        let ghost v0 = self.view();
        let ghost q1 = v0.queue;
        let ghost tf0 = *tf;
        let n = self.processes.len();
        let mut scanned: usize = 0;
        while scanned < n
            invariant
                v0 == old(self).view(),
                q1 == v0.queue,
                tf0 == *old(tf),
                v0.wf(),
                n == q1.len(),
                0 <= scanned <= n,
                self.processes@ == q1.subrange(scanned as int, n as int) + q1.subrange(
                    0,
                    scanned as int,
                ),
                forall|i: int| 0 <= i < scanned ==> !(#[trigger] q1[i].spec_is_ready()),
                self.current == v0.current,
                self.last_id == v0.last_id,
                self.active_allocator == v0.active,
                *tf == tf0,
            decreases n - scanned,
        {
            let c_opt = self.processes.pop_front();
            let mut candidate = match c_opt {
                Some(p) => p,
                None => unreached(),
            };
            proof {
                assert(candidate == q1[scanned as int]);
            }
            if candidate.is_ready() {
                let cid = candidate.get_id();
                self.current = Some(cid);
                *tf = candidate.trap_frame;
                self.active_allocator = Some(candidate.allocator);
                candidate.state = State::Running;
                self.processes.push_front(candidate);
                proof {
                    lemma_skip_unready(q1, 0, scanned as int);
                    assert(find_ready_from(q1, 0) == Some(scanned as int));
                    assert(candidate == spec_running(q1[scanned as int]));
                    assert(self.processes@ =~= spec_selected_queue(q1, scanned as int));
                    lemma_selected_wf(v0, scanned as int);
                    assert(self.view() =~= spec_select(v0, tf0).0);
                }
                return Some(cid);
            }
            self.processes.push_back(candidate);
            proof {
                assert(self.processes@ =~= q1.subrange(scanned as int + 1, n as int) + q1.subrange(
                    0,
                    scanned as int + 1,
                ));
            }
            scanned = scanned + 1;
        }
        proof {
            lemma_skip_unready(q1, 0, n as int);
            assert(find_ready_from(q1, 0) is None);
            assert(self.processes@ =~= q1);
            assert(self.view() =~= spec_select(v0, tf0).0);
        }
        None
    }

    /// Performs a context switch using the live context buffer `tf`: the
    /// head of the queue — the outgoing process, whose context occupies the
    /// live buffer, as the identity tag in `tf` witnesses — has `tf` saved
    /// into it and its state set to `new_state`, and is re-appended at the
    /// tail; then one scan lap looks for the next ready process, as
    /// described on [`Scheduler::resume`].
    ///
    /// Returns the identifier of the process switched into `tf`, or `None`
    /// either when the queue is empty or when no process is ready yet — in
    /// the latter case the caller waits for an asynchronous event and calls
    /// [`Scheduler::resume`], which completes this switch.
    pub fn switch(&mut self, new_state: State, tf: &mut TrapFrame) -> (r: Option<Id>)
        requires
            old(self).wf(),
            old(self).view().queue.len() > 0 ==> old(tf).tpidr == old(
                self,
            ).view().queue[0].spec_id(),
        ensures
            final(self).wf(),
            ({
                let (v2, tf2, r2) = spec_switch(old(self).view(), new_state, *old(tf));
                final(self).view() == v2 && *final(tf) == tf2 && r == r2
            }),
            old(self).view().queue.len() == 0 ==> r is None && final(self).view() == old(
                self,
            ).view() && *final(tf) == *old(tf),
    {
        let ghost v0 = self.view();
        let c_opt = self.processes.pop_front();
        let mut outgoing = match c_opt {
            Some(p) => p,
            None => {
                return None;
            },
        };
        outgoing.trap_frame = *tf;
        outgoing.state = new_state;
        self.processes.push_back(outgoing);
        proof {
            let q1 = spec_rotated(v0.queue, *old(tf), new_state);
            let n = v0.queue.len() as int;
            assert(outgoing == spec_saved(v0.queue[0], *old(tf), new_state));
            assert(self.processes@ =~= q1);
            assert forall|i: int| 0 <= i < n - 1 implies #[trigger] q1[i].spec_id() == v0.queue[i
                + 1].spec_id() by {
                assert(q1[i] == v0.queue[i + 1]);
            }
            assert(q1[n - 1].spec_id() == v0.queue[0].spec_id());
            assert forall|i: int, j: int| 0 <= i < j < n implies q1[i].spec_id() != q1[j].spec_id() by {
                let si = if i == n - 1 {
                    0int
                } else {
                    i + 1
                };
                let sj = if j == n - 1 {
                    0int
                } else {
                    j + 1
                };
                if si < sj {
                    assert(v0.queue[si].spec_id() != v0.queue[sj].spec_id());
                } else {
                    assert(v0.queue[sj].spec_id() != v0.queue[si].spec_id());
                }
            }
            assert(self.wf());
        }
        self.resume(tf)
    }

    /// Reports whether no enqueued process carries identifier
    /// `pending_pid`: true for an identifier that was never admitted or
    /// whose process the external termination logic has removed, false
    /// while the process remains enqueued.
    pub fn is_finished(&self, pending_pid: Id) -> (r: bool)
        ensures
            r == !spec_queue_contains(self.view().queue, pending_pid),
    {
        let n = self.processes.len();
        let mut i: usize = 0;
        while i < n
            invariant
                n == self.processes@.len(),
                0 <= i <= n,
                forall|j: int| 0 <= j < i ==> self.processes@[j].spec_id() != pending_pid,
            decreases n - i,
        {
            if self.processes[i].get_id() == pending_pid {
                return false;
            }
            i = i + 1;
        }
        true
    }

    /// Reports whether the queue holds zero processes.
    pub fn is_empty(&self) -> (r: bool)
        ensures
            r == (self.view().queue.len() == 0),
    {
        self.processes.len() == 0
    }

    /// Entry point for the external subsystems that drive readiness (on
    /// I/O completion, timer expiry, and the like): flips the state of the
    /// enqueued process carrying identifier `pid` to ready, so that the
    /// next scan lap can select it. Returns whether such a process was
    /// found.
    pub fn wake(&mut self, pid: Id) -> (r: bool)
        requires
            old(self).wf(),
        ensures
            final(self).wf(),
            r == spec_queue_contains(old(self).view().queue, pid),
            ({
                let v0 = old(self).view();
                match find_pid_from(v0.queue, pid, 0) {
                    None => final(self).view() == v0,
                    Some(k) => final(self).view() == SchedView {
                        queue: v0.queue.update(k, spec_ready(v0.queue[k])),
                        current: v0.current,
                        last_id: v0.last_id,
                        active: v0.active,
                    },
                }
            }),
    {
        let ghost v0 = self.view();
        let n = self.processes.len();
        let mut i: usize = 0;
        while i < n
            invariant
                v0 == old(self).view(),
                self.view() == v0,
                v0.wf(),
                0 <= i <= n,
                n == v0.queue.len(),
                forall|j: int| 0 <= j < i ==> v0.queue[j].spec_id() != pid,
            decreases n - i,
        {
            if self.processes[i].get_id() == pid {
                let c_opt = self.processes.remove(i);
                let mut p = match c_opt {
                    Some(p) => p,
                    None => unreached(),
                };
                p.state = State::Ready;
                self.processes.insert(i, p);
                proof {
                    lemma_find_pid_from(v0.queue, pid, 0);
                    lemma_skip_other_pids(v0.queue, pid, 0, i as int);
                    assert(find_pid_from(v0.queue, pid, 0) == Some(i as int));
                    let q2 = v0.queue.update(i as int, spec_ready(v0.queue[i as int]));
                    assert(self.processes@ =~= q2);
                    lemma_same_ids_wf(v0, q2);
                }
                return true;
            }
            i = i + 1;
        }
        proof {
            lemma_skip_other_pids(v0.queue, pid, 0, n as int);
            lemma_find_pid_contains(v0.queue, pid);
        }
        false
    }

    /// Entry point for the external termination logic, which alone owns
    /// the decision to delete a process: takes the process carrying
    /// identifier `pid` out of the queue and hands it back, if one is
    /// enqueued. The scheduler itself never removes a process.
    pub fn remove(&mut self, pid: Id) -> (r: Option<Process>)
        requires
            old(self).wf(),
        ensures
            final(self).wf(),
            (r is Some) == spec_queue_contains(old(self).view().queue, pid),
            ({
                let v0 = old(self).view();
                match find_pid_from(v0.queue, pid, 0) {
                    None => r is None && final(self).view() == v0,
                    Some(k) => r == Some(v0.queue[k]) && final(self).view() == SchedView {
                        queue: v0.queue.remove(k),
                        current: v0.current,
                        last_id: v0.last_id,
                        active: v0.active,
                    },
                }
            }),
    {
        let ghost v0 = self.view();
        let n = self.processes.len();
        let mut i: usize = 0;
        while i < n
            invariant
                v0 == old(self).view(),
                self.view() == v0,
                v0.wf(),
                0 <= i <= n,
                n == v0.queue.len(),
                forall|j: int| 0 <= j < i ==> v0.queue[j].spec_id() != pid,
            decreases n - i,
        {
            if self.processes[i].get_id() == pid {
                let c_opt = self.processes.remove(i);
                let p = match c_opt {
                    Some(p) => p,
                    None => unreached(),
                };
                proof {
                    lemma_find_pid_from(v0.queue, pid, 0);
                    lemma_skip_other_pids(v0.queue, pid, 0, i as int);
                    assert(find_pid_from(v0.queue, pid, 0) == Some(i as int));
                    let q2 = v0.queue.remove(i as int);
                    assert(self.processes@ =~= q2);
                    assert forall|a: int, b: int| 0 <= a < b < q2.len() implies q2[a].spec_id()
                        != q2[b].spec_id() by {
                        let sa = if a < i as int {
                            a
                        } else {
                            a + 1
                        };
                        let sb = if b < i as int {
                            b
                        } else {
                            b + 1
                        };
                        assert(q2[a] == v0.queue[sa] && q2[b] == v0.queue[sb]);
                        assert(v0.queue[sa].spec_id() != v0.queue[sb].spec_id());
                    }
                    assert(self.wf());
                }
                return Some(p);
            }
            i = i + 1;
        }
        proof {
            lemma_skip_other_pids(v0.queue, pid, 0, n as int);
            lemma_find_pid_contains(v0.queue, pid);
        }
        None
    }
}

/// Process scheduler for the entire machine: the round-robin queue, the
/// identifier allocator, and the active address-space handle.
pub struct Scheduler {
    /// Queue of admitted processes; the front is the next scan candidate.
    pub processes: VecDeque<Process>,
    /// Identifier of the process whose saved context was most recently made
    /// live.
    pub current: Option<Id>,
    /// Highest identifier ever assigned.
    pub last_id: Option<Id>,
    /// Single-writer handle to the active address-space/allocator context,
    /// repointed on every successful selection.
    pub active_allocator: Option<AllocatorContext>,
}

} // verus!

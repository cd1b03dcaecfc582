//! Proved scheduling laws.
//!
//! Each law is stated over the abstract transitions of
//! [`crate::scheduler`] — the same spec functions that the executable
//! operations are proved to implement — and holds for every scheduler.

use vstd::prelude::*;

use crate::process::{AllocatorContext, Id, Process, State, TrapFrame};
use crate::scheduler::{
    find_ready_from, ids_distinct, lemma_find_ready_from, lemma_skip_unready, spec_add,
    spec_add_id, spec_fresh, spec_ready, spec_rotated, spec_running, spec_saved, spec_select,
    spec_selected_queue, spec_switch, SchedView,
};

verus! {

/// The state after admitting each process of `ps` in order.
pub open spec fn spec_add_all(v: SchedView, ps: Seq<Process>) -> SchedView
    decreases ps.len(),
{
    if ps.len() == 0 {
        v
    } else {
        spec_add_all(spec_add(v, ps[0]), ps.subrange(1, ps.len() as int))
    }
}

/// A scheduler state reachable from a fresh scheduler by admissions alone:
/// the queue holds the admitted processes in admission order, carrying
/// identifiers equal to their positions, and the first admitted process is
/// `current`.
pub open spec fn admissions_only(v: SchedView) -> bool {
    &&& v.queue.len() <= u64::MAX as int + 1
    &&& (forall|i: int| 0 <= i < v.queue.len() ==> #[trigger] v.queue[i].spec_id() == i)
    &&& v.last_id == (if v.queue.len() == 0 {
        None::<Id>
    } else {
        Some((v.queue.len() - 1) as u64)
    })
    &&& v.current == (if v.queue.len() == 0 {
        None::<Id>
    } else {
        Some(0u64)
    })
}

/// One admission into an admissions-only state assigns the identifier equal
/// to the number of processes admitted so far and keeps the state an
/// admissions-only state.
pub proof fn lemma_add_step(v: SchedView, p: Process)
    requires
        admissions_only(v),
        v.queue.len() <= u64::MAX as int,
    ensures
        admissions_only(spec_add(v, p)),
        spec_add(v, p).queue.len() == v.queue.len() + 1,
        spec_add_id(v) == Some(v.queue.len() as u64),
{
}

/// Folding admissions preserves the admissions-only shape.
pub proof fn lemma_add_all(v: SchedView, ps: Seq<Process>)
    requires
        admissions_only(v),
        v.queue.len() + ps.len() <= u64::MAX as int + 1,
    ensures
        admissions_only(spec_add_all(v, ps)),
        spec_add_all(v, ps).queue.len() == v.queue.len() + ps.len(),
        v.queue.len() > 0 ==> spec_add_all(v, ps).current == v.current,
    decreases ps.len(),
{
    if ps.len() > 0 {
        lemma_add_step(v, ps[0]);
        lemma_add_all(spec_add(v, ps[0]), ps.subrange(1, ps.len() as int));
    }
}

/// Law (admission identifiers, first process current): starting from a
/// fresh scheduler, a sequence of admissions with no identifier overflow
/// assigns exactly `0, 1, 2, ...` in admission order — the process admitted
/// i-th carries identifier i, so all identifiers are distinct — and as soon
/// as anything was admitted, the first admitted process is `current`, and
/// later admissions leave `current` unchanged.
pub proof fn lemma_admission_ids(ps: Seq<Process>)
    requires
        ps.len() <= u64::MAX as int + 1,
    ensures
        ({
            let v = spec_add_all(spec_fresh(), ps);
            &&& v.queue.len() == ps.len()
            &&& (forall|i: int| 0 <= i < ps.len() ==> #[trigger] v.queue[i].spec_id() == i)
            &&& ids_distinct(v.queue)
            &&& v.current == (if ps.len() == 0 {
                None::<Id>
            } else {
                Some(0u64)
            })
        }),
{
    lemma_add_all(spec_fresh(), ps);
}

/// Law (idle path): when no enqueued process is ready, a scan lap selects
/// nothing and changes nothing. The switch then reports "nothing selected",
/// and its caller must wait for an asynchronous event — the surrounding
/// kernel's wait-for-event primitive — before scanning again; a selection
/// can therefore happen only after some process's readiness was flipped
/// externally.
pub proof fn lemma_no_ready_no_selection(v: SchedView, tf: TrapFrame)
    requires
        forall|i: int| 0 <= i < v.queue.len() ==> !(#[trigger] v.queue[i].spec_is_ready()),
    ensures
        spec_select(v, tf) == (v, tf, None::<Id>),
{
    lemma_skip_unready(v.queue, 0, v.queue.len() as int);
}

/// Law (idle switch): when no enqueued process is ready and the outgoing
/// process is not re-admitted as ready, the whole switch selects nothing;
/// only an external readiness flip, observed by a later scan lap, lets a
/// switch complete.
pub proof fn lemma_all_waiting_switch_idles(v: SchedView, st: State, tf: TrapFrame)
    requires
        v.queue.len() > 0,
        !(st is Ready),
        forall|i: int| 0 <= i < v.queue.len() ==> !(#[trigger] v.queue[i].spec_is_ready()),
    ensures
        spec_switch(v, st, tf).2 is None,
{
    let q1 = spec_rotated(v.queue, tf, st);
    assert forall|i: int| 0 <= i < q1.len() implies !(#[trigger] q1[i].spec_is_ready()) by {
        if i < q1.len() - 1 {
            assert(q1[i] == v.queue[i + 1]);
        } else {
            assert(q1[i] == spec_saved(v.queue[0], tf, st));
        }
    }
    lemma_skip_unready(q1, 0, q1.len() as int);
}

/// Law (wakeup is observed): in a queue where nothing is ready, flipping
/// one process to ready makes the next scan lap select exactly that
/// process and restore exactly its saved context.
pub proof fn lemma_wake_then_select(v: SchedView, k: int, tf: TrapFrame)
    requires
        0 <= k < v.queue.len(),
        forall|i: int| 0 <= i < v.queue.len() ==> !(#[trigger] v.queue[i].spec_is_ready()),
    ensures
        ({
            let woken = SchedView {
                queue: v.queue.update(k, spec_ready(v.queue[k])),
                current: v.current,
                last_id: v.last_id,
                active: v.active,
            };
            &&& spec_select(woken, tf).2 == Some(v.queue[k].spec_id())
            &&& spec_select(woken, tf).1 == v.queue[k].trap_frame
        }),
{
    let q2 = v.queue.update(k, spec_ready(v.queue[k]));
    lemma_skip_unready(q2, 0, k);
    assert(q2[k].spec_is_ready());
    assert(find_ready_from(q2, 0) == Some(k));
}

/// Law (selection needs readiness): whenever a scan lap returns an
/// identifier, a process carrying it was enqueued and ready, and it is the
/// one whose saved context was restored into the live buffer.
pub proof fn lemma_selection_is_ready(v: SchedView, tf: TrapFrame)
    ensures
        spec_select(v, tf).2 is Some ==> exists|i: int|
            0 <= i < v.queue.len() && Some(#[trigger] v.queue[i].spec_id()) == spec_select(
                v,
                tf,
            ).2 && v.queue[i].spec_is_ready() && spec_select(v, tf).1 == v.queue[i].trap_frame,
{
    lemma_find_ready_from(v.queue, 0);
    match find_ready_from(v.queue, 0) {
        Some(k) => {
            assert(0 <= k < v.queue.len() && Some(v.queue[k].spec_id()) == spec_select(v, tf).2
                && v.queue[k].spec_is_ready() && spec_select(v, tf).1 == v.queue[k].trap_frame);
        },
        None => {},
    }
}

/// Law (round-robin alternation, context round trip): with processes A and
/// B enqueued in that order and B ready, a switch saves the live context
/// into A and hands the processor to B; if A was re-admitted as ready, the
/// next switch hands the processor back to A and restores into the live
/// buffer exactly the context that was saved for A. Two ready processes
/// therefore alternate, one per call, and a saved context returns byte for
/// byte when its process is selected again.
pub proof fn lemma_round_robin_alternation(
    a: Process,
    b: Process,
    cur: Option<Id>,
    last: Option<Id>,
    act: Option<AllocatorContext>,
    st1: State,
    st2: State,
    tf0: TrapFrame,
    tf1: TrapFrame,
)
    requires
        b.spec_is_ready(),
        tf0.tpidr == a.spec_id(),
    ensures
        ({
            let v = SchedView { queue: seq![a, b], current: cur, last_id: last, active: act };
            let (v1, tfr1, r1) = spec_switch(v, st1, tf0);
            &&& r1 == Some(b.spec_id())
            &&& tfr1 == b.trap_frame
            &&& v1.current == Some(b.spec_id())
            &&& v1.active == Some(b.allocator)
            &&& v1.queue == seq![spec_running(b), spec_saved(a, tf0, st1)]
            &&& (st1 is Ready ==> {
                let (v2, tfr2, r2) = spec_switch(v1, st2, tf1);
                &&& r2 == Some(a.spec_id())
                &&& tfr2 == tf0
                &&& v2.current == Some(a.spec_id())
                &&& v2.queue == seq![
                    spec_running(spec_saved(a, tf0, st1)),
                    spec_saved(spec_running(b), tf1, st2),
                ]
            })
        }),
{
    let v = SchedView { queue: seq![a, b], current: cur, last_id: last, active: act };
    let a1 = spec_saved(a, tf0, st1);
    let q1 = spec_rotated(v.queue, tf0, st1);
    assert(q1 =~= seq![b, a1]);
    assert(find_ready_from(q1, 0) == Some(0int));
    assert(spec_selected_queue(q1, 0) =~= seq![spec_running(b), a1]);
    let v1 = spec_switch(v, st1, tf0).0;
    assert(v1.queue == seq![spec_running(b), a1]);
    if st1 is Ready {
        let b1 = spec_saved(spec_running(b), tf1, st2);
        let q2 = spec_rotated(v1.queue, tf1, st2);
        assert(q2 =~= seq![a1, b1]);
        assert(a1.spec_is_ready());
        assert(find_ready_from(q2, 0) == Some(0int));
        assert(spec_selected_queue(q2, 0) =~= seq![spec_running(a1), b1]);
    }
}

} // verus!

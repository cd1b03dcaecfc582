use rr_scheduler::process::{AllocatorContext, Process, State, TrapFrame};
use rr_scheduler::scheduler::Scheduler;
use std::collections::VecDeque;

fn proc(state: State, tag: u64, sp: u64, base: u64) -> Process {
    Process {
        state,
        trap_frame: TrapFrame { tpidr: tag, sp, elr: sp + 1, spsr: sp + 2 },
        allocator: AllocatorContext { base },
    }
}

#[test]
fn admission_assigns_sequential_ids() {
    let mut s = Scheduler::new();
    assert_eq!(s.add(proc(State::Ready, 77, 10, 1)), Some(0));
    assert_eq!(s.add(proc(State::Ready, 77, 20, 2)), Some(1));
    assert_eq!(s.add(proc(State::Waiting, 77, 30, 3)), Some(2));
    assert_eq!(s.last_id, Some(2));
    // the identity tags were stamped at admission, whatever came in
    assert_eq!(s.processes[0].trap_frame.tpidr, 0);
    assert_eq!(s.processes[1].trap_frame.tpidr, 1);
    assert_eq!(s.processes[2].trap_frame.tpidr, 2);
}

#[test]
fn admission_at_id_exhaustion_fails_without_change() {
    let mut queue = VecDeque::new();
    queue.push_back(proc(State::Ready, 0, 10, 1));
    let mut s = Scheduler {
        processes: queue,
        current: Some(0),
        last_id: Some(u64::MAX),
        active_allocator: None,
    };
    let before = s.processes.clone();
    assert_eq!(s.add(proc(State::Ready, 9, 40, 4)), None);
    assert_eq!(s.processes, before);
    assert_eq!(s.last_id, Some(u64::MAX));
    assert_eq!(s.current, Some(0));
}

#[test]
fn first_admission_becomes_current() {
    let mut s = Scheduler::new();
    assert_eq!(s.current, None);
    assert_eq!(s.add(proc(State::Ready, 9, 10, 1)), Some(0));
    assert_eq!(s.current, Some(0));
    assert_eq!(s.add(proc(State::Ready, 9, 20, 2)), Some(1));
    assert_eq!(s.current, Some(0));
    assert_eq!(s.add(proc(State::Waiting, 9, 30, 3)), Some(2));
    assert_eq!(s.current, Some(0));
}

#[test]
fn switch_on_empty_scheduler_does_nothing() {
    let mut s = Scheduler::new();
    let tf0 = TrapFrame { tpidr: 0, sp: 50, elr: 51, spsr: 52 };
    let mut tf = tf0;
    assert_eq!(s.switch(State::Ready, &mut tf), None);
    assert_eq!(tf, tf0);
    assert_eq!(s.current, None);
    assert_eq!(s.last_id, None);
    assert!(s.processes.is_empty());
}

#[test]
fn two_ready_processes_alternate() {
    let mut s = Scheduler::new();
    assert_eq!(s.add(proc(State::Ready, 9, 10, 1)), Some(0)); // A
    assert_eq!(s.add(proc(State::Ready, 9, 20, 2)), Some(1)); // B
    // A owns the live buffer
    let tf0 = TrapFrame { tpidr: 0, sp: 111, elr: 112, spsr: 113 };
    let mut tf = tf0;
    assert_eq!(s.switch(State::Ready, &mut tf), Some(1));
    // B's saved context became live
    assert_eq!(tf.tpidr, 1);
    assert_eq!(tf.sp, 20);
    // B runs at the head; A was saved with the caller-supplied state
    assert_eq!(s.current, Some(1));
    assert_eq!(s.processes[0].state, State::Running);
    assert_eq!(s.processes[1].state, State::Ready);
    assert_eq!(s.processes[1].trap_frame, tf0);
    assert_eq!(s.active_allocator, Some(AllocatorContext { base: 2 }));
    // the next call returns to A: strict round robin with period two
    let tf1 = tf;
    assert_eq!(s.switch(State::Waiting, &mut tf), Some(0));
    assert_eq!(s.current, Some(0));
    // A's context returns into the live buffer byte for byte
    assert_eq!(tf, tf0);
    assert_eq!(s.processes[0].state, State::Running);
    assert_eq!(s.processes[1].state, State::Waiting);
    assert_eq!(s.processes[1].trap_frame, tf1);
    assert_eq!(s.active_allocator, Some(AllocatorContext { base: 1 }));
}

#[test]
fn saved_context_round_trips_through_three_processes() {
    let mut s = Scheduler::new();
    assert_eq!(s.add(proc(State::Ready, 9, 10, 1)), Some(0));
    assert_eq!(s.add(proc(State::Ready, 9, 20, 2)), Some(1));
    assert_eq!(s.add(proc(State::Ready, 9, 30, 3)), Some(2));
    let tf0 = TrapFrame { tpidr: 0, sp: 500, elr: 501, spsr: 502 };
    let mut tf = tf0;
    assert_eq!(s.switch(State::Ready, &mut tf), Some(1));
    assert_eq!(s.switch(State::Ready, &mut tf), Some(2));
    assert_eq!(s.switch(State::Ready, &mut tf), Some(0));
    assert_eq!(tf, tf0);
}

#[test]
fn idle_until_woken() {
    let mut s = Scheduler::new();
    assert_eq!(s.add(proc(State::Waiting, 9, 10, 1)), Some(0));
    assert_eq!(s.add(proc(State::Waiting, 9, 20, 2)), Some(1));
    let mut tf = TrapFrame { tpidr: 0, sp: 50, elr: 51, spsr: 52 };
    // nothing is ready: the outgoing context is saved, nothing is selected
    assert_eq!(s.switch(State::Waiting, &mut tf), None);
    assert_eq!(tf.sp, 50); // the live buffer is untouched
    assert_eq!(s.processes[1].trap_frame.sp, 50); // saved into the outgoing process
    assert_eq!(s.current, Some(0)); // unchanged: no switch completed
    // the caller now invokes the wait-for-event primitive; between laps an
    // external event flips process 1 to ready
    assert_eq!(s.resume(&mut tf), None);
    assert!(s.wake(1));
    assert_eq!(s.resume(&mut tf), Some(1));
    assert_eq!(tf.sp, 20);
    assert_eq!(s.current, Some(1));
}

#[test]
fn wake_of_absent_pid_reports_failure() {
    let mut s = Scheduler::new();
    assert_eq!(s.add(proc(State::Waiting, 9, 10, 1)), Some(0));
    assert!(!s.wake(3));
    assert_eq!(s.processes[0].state, State::Waiting);
    assert!(s.wake(0));
    assert_eq!(s.processes[0].state, State::Ready);
}

#[test]
fn is_finished_tracks_admission_and_removal() {
    let mut s = Scheduler::new();
    assert!(s.is_finished(0)); // never admitted
    assert!(s.is_finished(42));
    assert_eq!(s.add(proc(State::Ready, 9, 10, 1)), Some(0));
    assert!(!s.is_finished(0));
    // the external termination logic removes the process
    let removed = s.remove(0);
    assert!(removed.is_some());
    assert_eq!(removed.unwrap().trap_frame.sp, 10);
    assert!(s.is_finished(0));
    assert_eq!(s.remove(0), None);
}

#[test]
fn is_empty_reflects_queue_size() {
    let mut s = Scheduler::new();
    assert!(s.is_empty());
    assert_eq!(s.add(proc(State::Waiting, 9, 10, 1)), Some(0));
    assert!(!s.is_empty());
    assert!(s.remove(0).is_some());
    assert!(s.is_empty());
}

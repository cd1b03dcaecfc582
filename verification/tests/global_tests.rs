use rr_scheduler::global::GlobalScheduler;
use rr_scheduler::process::{AllocatorContext, Process, State, TrapFrame};

fn ready_proc(sp: u64, base: u64) -> Process {
    Process {
        state: State::Ready,
        trap_frame: TrapFrame { tpidr: 0, sp, elr: sp + 1, spsr: sp + 2 },
        allocator: AllocatorContext { base },
    }
}

#[test]
fn facade_starts_empty() {
    let mut gs = GlobalScheduler::uninitialized();
    gs.start();
    assert!(gs.is_empty());
    assert!(gs.is_finished(0));
}

#[test]
fn facade_round_robin() {
    let mut gs = GlobalScheduler::uninitialized();
    gs.start();
    assert_eq!(gs.add(ready_proc(10, 1)), Some(0));
    assert_eq!(gs.add(ready_proc(20, 2)), Some(1));
    assert!(!gs.is_empty());
    assert!(!gs.is_finished(0));
    assert!(!gs.is_finished(1));
    assert!(gs.is_finished(5));
    let tf0 = TrapFrame { tpidr: 0, sp: 90, elr: 91, spsr: 92 };
    let mut tf = tf0;
    assert_eq!(gs.switch(State::Ready, &mut tf), Some(1));
    assert_eq!(tf.sp, 20);
    assert_eq!(gs.switch(State::Ready, &mut tf), Some(0));
    assert_eq!(tf, tf0);
}

#[test]
fn facade_idle_and_resume() {
    let mut gs = GlobalScheduler::uninitialized();
    gs.start();
    let waiting = Process {
        state: State::Waiting,
        trap_frame: TrapFrame { tpidr: 0, sp: 10, elr: 11, spsr: 12 },
        allocator: AllocatorContext { base: 1 },
    };
    assert_eq!(gs.add(waiting), Some(0));
    let mut tf = TrapFrame { tpidr: 0, sp: 70, elr: 71, spsr: 72 };
    assert_eq!(gs.switch(State::Waiting, &mut tf), None);
    // an external event makes the process ready between scan laps
    assert!(gs.0.as_mut().unwrap().wake(0));
    assert_eq!(gs.resume(&mut tf), Some(0));
    assert_eq!(tf.sp, 70); // its own earlier save is what comes back
}

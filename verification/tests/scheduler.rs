use kernel::process::{Process, State};
use kernel::scheduler::{GlobalScheduler, Scheduler, TICK};
use kernel::trap_frame::TrapFrame;

fn ready_process(stack: u64, entry: u64) -> Process {
    let mut p = Process::new(stack);
    p.init(entry);
    p
}

#[test]
fn ids_increase_and_are_unique() {
    let mut sched = Scheduler::new();
    let mut issued = Vec::new();
    for k in 0..8u64 {
        let id = sched.add(ready_process(0x1000 * (k + 1), 0x8000)).expect("id space is fresh");
        issued.push(id);
    }
    assert_eq!(issued, vec![0, 1, 2, 3, 4, 5, 6, 7]);
    for a in 0..issued.len() {
        for b in (a + 1)..issued.len() {
            assert!(issued[a] < issued[b]);
        }
    }
}

#[test]
fn first_process_becomes_current() {
    let mut sched = Scheduler::new();
    assert_eq!(sched.current(), None);
    let id = sched.add(ready_process(0x1000, 0x8000)).unwrap();
    assert_eq!(sched.current(), Some(id));
    let _ = sched.add(ready_process(0x2000, 0x8000)).unwrap();
    assert_eq!(sched.current(), Some(id));
}

#[test]
fn switch_on_empty_queue_is_absent() {
    let mut sched = Scheduler::new();
    let mut tf = TrapFrame::zeroed();
    assert_eq!(sched.switch(State::Ready, 0, &mut tf), None);
}

#[test]
fn switch_to_ready_never_absent_once_added() {
    let mut sched = Scheduler::new();
    let _ = sched.add(ready_process(0x1000, 0x8000)).unwrap();
    let mut tf = TrapFrame::zeroed();
    for now in 0..32u64 {
        assert!(sched.switch(State::Ready, now, &mut tf).is_some());
    }
}

#[test]
fn single_process_is_relaunched() {
    let mut sched = Scheduler::new();
    let id = sched.add(ready_process(0x1000, 0x8000)).unwrap();
    let mut tf = TrapFrame::zeroed();
    tf.tpidr = id;
    tf.x0 = 77;
    let switched = sched.switch(State::Ready, 5, &mut tf);
    assert_eq!(switched, Some(id));
    // The saved frame came straight back.
    assert_eq!(tf.x0, 77);
    assert_eq!(tf.tpidr, id);
}

#[test]
fn two_processes_alternate_one_zero_one() {
    // Processes A (id 0) then B (id 1); three switches from A running must
    // produce the current-id sequence [1, 0, 1].
    let mut sched = Scheduler::new();
    let a = sched.add(ready_process(0x1000, 0xA000)).unwrap();
    let b = sched.add(ready_process(0x2000, 0xB000)).unwrap();
    assert_eq!((a, b), (0, 1));
    let mut tf = TrapFrame::zeroed();
    tf.tpidr = a;
    let mut seen = Vec::new();
    for now in 0..3u64 {
        seen.push(sched.switch(State::Ready, now, &mut tf).unwrap());
    }
    assert_eq!(seen, vec![1, 0, 1]);
}

#[test]
fn round_robin_is_periodic_with_period_k() {
    // With k = 3 permanently ready processes, the current-id sequence
    // repeats with period 3.
    let mut sched = Scheduler::new();
    for k in 0..3u64 {
        let _ = sched.add(ready_process(0x1000 * (k + 1), 0x8000)).unwrap();
    }
    let mut tf = TrapFrame::zeroed();
    let mut seen = Vec::new();
    for now in 0..9u64 {
        seen.push(sched.switch(State::Ready, now, &mut tf).unwrap());
    }
    assert_eq!(seen, vec![1, 2, 0, 1, 2, 0, 1, 2, 0]);
    for i in 0..6 {
        assert_eq!(seen[i], seen[i + 3]);
    }
}

#[test]
fn switch_restores_saved_registers() {
    let mut sched = Scheduler::new();
    let a = sched.add(ready_process(0x1000, 0xA000)).unwrap();
    let b = sched.add(ready_process(0x2000, 0xB000)).unwrap();
    // The live frame is A's: it has been executing since the bootstrap.
    let mut tf = TrapFrame { pc: 0xA000, pstate: 0, sp: 0x1000, tpidr: a, x0: 41, x7: 0 };
    // A is switched out with x0 == 41; B's pristine frame comes in.
    assert_eq!(sched.switch(State::Ready, 0, &mut tf), Some(b));
    assert_eq!(tf.tpidr, b);
    assert_eq!(tf.pc, 0xB000);
    assert_eq!(tf.sp, 0x2000);
    // Switching B out brings A's saved frame back, x0 included.
    assert_eq!(sched.switch(State::Ready, 1, &mut tf), Some(a));
    assert_eq!(tf.x0, 41);
    assert_eq!(tf.pc, 0xA000);
}

#[test]
fn start_registers_shell_and_heartbeat() {
    let mut gs = GlobalScheduler::uninitialized();
    let tf = gs.start(0xA000, 0x1000, 0xB000, 0x2000);
    assert_eq!(gs.len(), 2);
    assert_eq!(gs.current(), Some(0));
    assert_eq!(tf.pc, 0xA000);
    assert_eq!(tf.sp, 0x1000);
    assert_eq!(tf.tpidr, 0);
    assert_eq!(tf.x0, 0);
    assert_eq!(gs.state_at(0), State::Ready);
    assert_eq!(gs.state_at(1), State::Ready);
}

#[test]
fn tick_is_ten_milliseconds() {
    assert_eq!(TICK, 10_000);
}

#[test]
fn processes_added_after_start_join_the_rotation() {
    let mut gs = GlobalScheduler::uninitialized();
    let mut tf = gs.start(0xA000, 0x1000, 0xB000, 0x2000);
    let mut third = Process::new(0x3000);
    third.init(0xC000);
    assert_eq!(gs.add(third), Some(2));
    assert_eq!(gs.len(), 3);
    // The current process is unchanged by a later add.
    assert_eq!(gs.current(), Some(0));
    let mut seen = Vec::new();
    for now in 0..6u64 {
        seen.push(gs.switch(State::Ready, now, &mut tf).unwrap());
    }
    assert_eq!(seen, vec![1, 2, 0, 1, 2, 0]);
}

//! Processes: one schedulable unit each, owning a trap frame and a state.

use vstd::prelude::*;

use crate::trap_frame::TrapFrame;

verus! {

/// A process identity: unique and monotonically increasing. The allocator
/// saturates rather than wraps, so exhaustion of the id space is terminal.
pub type Id = u64;

/// The wake condition of a sleeping process: the block is satisfied once the
/// current time (in microseconds) reaches `until`. `start` records when the
/// sleep was issued, so the elapsed time can be reported on wake-up.
#[derive(Clone, Copy, Debug, PartialEq, Eq, Structural)]
pub struct SleepWait {
    pub start: u64,
    pub until: u64,
}

/// The scheduling state of a process.
///
/// Exactly one process is `Running` once scheduling has started. A `Waiting`
/// process carries the reason it is blocked; the scheduler evaluates the
/// condition each time its scan visits the process, and a true result both
/// flips the process to `Ready` and commits the blocked call's return values
/// into the process's own frame.
#[derive(Clone, Copy, Debug, PartialEq, Eq, Structural)]
pub enum State {
    Ready,
    Running,
    Waiting(SleepWait),
}

/// Whether a process in state `s` can be run at time `now`: it is `Ready`,
/// or its wake condition is due.
pub open spec fn state_ready_at(s: State, now: u64) -> bool {
    match s {
        State::Ready => true,
        State::Running => false,
        State::Waiting(w) => now >= w.until,
    }
}

/// One schedulable unit: an owned trap frame (which carries the identity in
/// its `tpidr` field) plus a scheduling state.
#[derive(Clone, Copy, Debug, PartialEq, Eq, Structural)]
pub struct Process {
    pub trap_frame: TrapFrame,
    pub state: State,
}

impl Process {
    /// A wake condition never lies in the past of its own issue time.
    pub open spec fn inv(&self) -> bool {
        self.state matches State::Waiting(w) ==> w.start <= w.until
    }

    /// The identity of this process, as stamped into its frame.
    pub open spec fn id_spec(&self) -> Id {
        self.trap_frame.tpidr
    }

    /// Returns a fresh process whose frame is zeroed except for the given
    /// stack top. The backing stack itself comes from the memory allocator,
    /// which lives outside the core; only its address is recorded here.
    pub fn new(stack_top: u64) -> (p: Process)
        ensures
            p == (Process {
                trap_frame: TrapFrame { pc: 0, pstate: 0, sp: stack_top, tpidr: 0, x0: 0, x7: 0 },
                state: State::Ready,
            }),
    {
        Process {
            trap_frame: TrapFrame { pc: 0, pstate: 0, sp: stack_top, tpidr: 0, x0: 0, x7: 0 },
            state: State::Ready,
        }
    }

    /// Seeds the frame with its entry point and the defined startup register
    /// layout, and marks the process ready to run. Must run exactly once,
    /// before the process is registered with the scheduler.
    pub fn init(&mut self, entry: u64)
        ensures
            *final(self) == (Process {
                trap_frame: TrapFrame {
                    pc: entry,
                    pstate: 0,
                    sp: old(self).trap_frame.sp,
                    tpidr: old(self).trap_frame.tpidr,
                    x0: 0,
                    x7: 0,
                },
                state: State::Ready,
            }),
    {
        self.trap_frame.pc = entry;
        self.trap_frame.pstate = 0;
        self.trap_frame.x0 = 0;
        self.trap_frame.x7 = 0;
        self.state = State::Ready;
    }

    /// The identity of this process.
    pub fn id(&self) -> (r: Id)
        ensures
            r == self.id_spec(),
    {
        self.trap_frame.tpidr
    }

    /// True iff the process is `Ready`.
    pub fn is_ready(&self) -> (r: bool)
        ensures
            r == (self.state is Ready),
    {
        matches!(self.state, State::Ready)
    }
}

/// The process `p` after a scheduler scan visits it at time `now`: a
/// `Waiting` process whose condition is due wakes up — its elapsed sleep
/// time in milliseconds is committed to `x0`, a success status to `x7`, and
/// it becomes `Ready`. Every other process is left unchanged.
pub open spec fn woken(p: Process, now: u64) -> Process {
    match p.state {
        State::Waiting(w) => if now >= w.until && now >= w.start {
            Process {
                trap_frame: TrapFrame {
                    x0: (((now - w.start) as int) / 1000) as u64,
                    x7: 0,
                    ..p.trap_frame
                },
                state: State::Ready,
            }
        } else {
            p
        },
        _ => p,
    }
}

/// Whether `p` can be run at time `now`.
pub open spec fn ready_at(p: Process, now: u64) -> bool {
    state_ready_at(p.state, now)
}

impl Process {
    /// Evaluates this process's wake condition for one scheduler scan at
    /// time `now`, committing the results of the blocked call on success.
    /// Returns whether the process can now be run.
    pub fn try_wake(&mut self, now: u64) -> (r: bool)
        requires
            old(self).inv(),
        ensures
            r == ready_at(*old(self), now),
            *final(self) == woken(*old(self), now),
            final(self).inv(),
    {
        match self.state {
            State::Ready => true,
            State::Running => false,
            State::Waiting(w) => {
                if now >= w.until {
                    self.trap_frame.x0 = (now - w.start) / 1000;
                    self.trap_frame.x7 = 0;
                    self.state = State::Ready;
                    true
                } else {
                    false
                }
            }
        }
    }
}

} // verus!

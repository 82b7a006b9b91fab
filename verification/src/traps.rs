//! The trap dispatcher: classifies a trap and routes it to the IRQ handler
//! or the syscall layer.
//!
//! The surrounding trap glue (assembly and register reads, outside this
//! crate) hands in the trap classification, the raw cause code, the pending
//! interrupt lines and the current time, and carries out the returned
//! [`Action`] — running the nested debug interpreter, re-arming the timer,
//! halting until time advances, or stopping the machine on a configuration
//! bug.

use vstd::prelude::*;

use crate::interrupt::Interrupt;
use crate::process::State;
use crate::scheduler::{switch_post, switch_ret, GlobalScheduler, TICK};
use crate::syndrome::{spec_syndrome_of, Syndrome};
use crate::syscall::{handle_syscall, sleep_wake_cond, SYS_SLEEP};
use crate::trap_frame::TrapFrame;

verus! {

/// What kind of trap occurred.
#[derive(Clone, Copy, Debug, PartialEq, Eq, Structural)]
pub enum Kind {
    Synchronous,
    Irq,
    Fiq,
    SError,
}

/// Which execution context the trap came from.
#[derive(Clone, Copy, Debug, PartialEq, Eq, Structural)]
pub enum Source {
    CurrentSpEl0,
    CurrentSpElx,
    LowerAArch64,
    LowerAArch32,
}

/// The trap classification the trap vectors report: its source context and
/// its kind.
#[derive(Clone, Copy, Debug, PartialEq, Eq, Structural)]
pub struct Info {
    pub source: Source,
    pub kind: Kind,
}

/// The kind encoded by the trap vector's index code, if the code is one the
/// vectors emit.
pub open spec fn spec_kind_of(code: u16) -> Option<Kind> {
    if code == 0 {
        Some(Kind::Synchronous)
    } else if code == 1 {
        Some(Kind::Irq)
    } else if code == 2 {
        Some(Kind::Fiq)
    } else if code == 3 {
        Some(Kind::SError)
    } else {
        None
    }
}

/// The source context encoded by the trap vector's index code, if the code
/// is one the vectors emit.
pub open spec fn spec_source_of(code: u16) -> Option<Source> {
    if code == 0 {
        Some(Source::CurrentSpEl0)
    } else if code == 1 {
        Some(Source::CurrentSpElx)
    } else if code == 2 {
        Some(Source::LowerAArch64)
    } else if code == 3 {
        Some(Source::LowerAArch32)
    } else {
        None
    }
}

impl Kind {
    /// Decodes the trap kind from the vector index code the trap glue
    /// reports.
    pub fn from_code(code: u16) -> (r: Option<Kind>)
        ensures
            r == spec_kind_of(code),
    {
        if code == 0 {
            Some(Kind::Synchronous)
        } else if code == 1 {
            Some(Kind::Irq)
        } else if code == 2 {
            Some(Kind::Fiq)
        } else if code == 3 {
            Some(Kind::SError)
        } else {
            None
        }
    }
}

impl Source {
    /// Decodes the trap source from the vector index code the trap glue
    /// reports.
    pub fn from_code(code: u16) -> (r: Option<Source>)
        ensures
            r == spec_source_of(code),
    {
        if code == 0 {
            Some(Source::CurrentSpEl0)
        } else if code == 1 {
            Some(Source::CurrentSpElx)
        } else if code == 2 {
            Some(Source::LowerAArch64)
        } else if code == 3 {
            Some(Source::LowerAArch32)
        } else {
            None
        }
    }
}

/// What remains for the trap glue to do after a trap is dispatched.
#[derive(Clone, Copy, Debug, PartialEq, Eq, Structural)]
pub enum Action {
    /// Restore the (possibly switched) frame and resume execution.
    Proceed,
    /// A breakpoint: run a nested instance of the interactive command
    /// interpreter, then resume past the breakpoint instruction.
    DebugShell,
    /// A timer tick was handled: re-arm the timer to fire again after this
    /// many microseconds, then resume.
    ArmTimer(u32),
    /// Nothing can run yet: halt the core in a low-power wait, then retry
    /// the switch to this state with a fresh time reading.
    Block(State),
    /// A line is pending that no handler covers — a configuration bug:
    /// stop the machine.
    HaltUnhandled(Interrupt),
}

/// Handles one pending interrupt line, at time `now`, with `tf` the live
/// frame of the currently running process.
///
/// The periodic timer preempts the running process: it is switched out
/// ready to run again, the next process's frame is restored into `tf`, and
/// the timer must be re-armed for the next tick. A switch that keeps the
/// departing process ready always finds a process to run, so this handler
/// never fails. Every other line is pending without a handler: nothing
/// should have enabled it, and the machine must stop.
pub fn handle_irq(irq: Interrupt, now: u64, gs: &mut GlobalScheduler, tf: &mut TrapFrame) -> (act:
    Action)
    requires
        old(gs).wf(),
        old(gs).is_initialized(),
        old(gs).queue().len() > 0,
        old(tf).tpidr == old(gs).queue()[0].id_spec(),
    ensures
        final(gs).wf(),
        final(gs).is_initialized(),
        final(gs).last_issued() == old(gs).last_issued(),
        irq == Interrupt::Timer1 ==> ({
            &&& switch_post(
                old(gs).queue(),
                old(gs).current_id(),
                State::Ready,
                now,
                *old(tf),
                final(gs).queue(),
                final(gs).current_id(),
                *final(tf),
            )
            &&& switch_ret(old(gs).queue(), State::Ready, *old(tf), now) is Some
            &&& act == Action::ArmTimer(TICK)
        }),
        irq != Interrupt::Timer1 ==> ({
            &&& final(gs).queue() == old(gs).queue()
            &&& final(gs).current_id() == old(gs).current_id()
            &&& *final(tf) == *old(tf)
            &&& act == Action::HaltUnhandled(irq)
        }),
{
    match irq {
        Interrupt::Timer1 => {
            let switched = gs.switch(State::Ready, now, tf);
            proof {
                // The departing process stays ready, so progress was
                // possible and a process was switched to.
                assert(switched is Some);
            }
            Action::ArmTimer(TICK)
        }
        _ => Action::HaltUnhandled(irq),
    }
}

/// Dispatches one trap: `info` classifies it, `esr` is the raw cause code
/// of a synchronous exception, `pending` lists the pending interrupt lines
/// in the order the controller reports them, `now` is the current time and
/// `tf` the trapping process's live frame.
///
/// - A synchronous breakpoint advances the resume address past the
///   instruction and asks for a nested debug interpreter.
/// - A synchronous supervisor call carries a 16-bit syscall number in its
///   immediate and is dispatched to the syscall layer.
/// - Every other synchronous cause is diagnostic only: execution resumes
///   unchanged.
/// - An interrupt request is handled line by line: the timer line preempts
///   the running process and asks for the next tick; any other pending line
///   is a fatal configuration bug.
/// - Fast interrupts and system errors resume unchanged.
pub fn handle_exception(
    info: Info,
    esr: u32,
    pending: &Vec<Interrupt>,
    now: u64,
    gs: &mut GlobalScheduler,
    tf: &mut TrapFrame,
) -> (act: Action)
    requires
        old(gs).wf(),
        old(gs).is_initialized(),
        old(gs).queue().len() > 0,
        old(tf).tpidr == old(gs).queue()[0].id_spec(),
        (info.kind is Synchronous && spec_syndrome_of(esr) matches Syndrome::Brk(_)) ==> old(
            tf,
        ).pc + 4 <= u64::MAX,
        ({
            &&& info.kind is Synchronous
            &&& spec_syndrome_of(esr) matches Syndrome::Svc(n)
            &&& n == SYS_SLEEP
        }) ==> now + old(tf).x0 * 1000 <= u64::MAX,
    ensures
        final(gs).wf(),
        final(gs).is_initialized(),
        final(gs).last_issued() == old(gs).last_issued(),
        (info.kind is Synchronous && spec_syndrome_of(esr) matches Syndrome::Brk(_)) ==> ({
            &&& final(gs).queue() == old(gs).queue()
            &&& final(gs).current_id() == old(gs).current_id()
            &&& *final(tf) == (TrapFrame { pc: (old(tf).pc + 4) as u64, ..*old(tf) })
            &&& act == Action::DebugShell
        }),
        ({
            &&& info.kind is Synchronous
            &&& spec_syndrome_of(esr) matches Syndrome::Svc(n)
            &&& n == SYS_SLEEP
        }) ==> ({
            let w = sleep_wake_cond(now, old(tf).x0);
            &&& switch_post(
                old(gs).queue(),
                old(gs).current_id(),
                State::Waiting(w),
                now,
                *old(tf),
                final(gs).queue(),
                final(gs).current_id(),
                *final(tf),
            )
            &&& act == (match switch_ret(old(gs).queue(), State::Waiting(w), *old(tf), now) {
                Some(_) => Action::Proceed,
                None => Action::Block(State::Waiting(w)),
            })
        }),
        ({
            &&& info.kind is Synchronous
            &&& spec_syndrome_of(esr) matches Syndrome::Svc(n)
            &&& n != SYS_SLEEP
        }) ==> ({
            &&& final(gs).queue() == old(gs).queue()
            &&& final(gs).current_id() == old(gs).current_id()
            &&& *final(tf) == (TrapFrame { x7: 1, ..*old(tf) })
            &&& act == Action::Proceed
        }),
        (info.kind is Synchronous && !(spec_syndrome_of(esr) matches Syndrome::Brk(_)) && !(
        spec_syndrome_of(esr) matches Syndrome::Svc(_))) ==> ({
            &&& final(gs).queue() == old(gs).queue()
            &&& final(gs).current_id() == old(gs).current_id()
            &&& *final(tf) == *old(tf)
            &&& act == Action::Proceed
        }),
        (info.kind is Irq && pending@.len() == 0) ==> ({
            &&& final(gs).queue() == old(gs).queue()
            &&& final(gs).current_id() == old(gs).current_id()
            &&& *final(tf) == *old(tf)
            &&& act == Action::Proceed
        }),
        (info.kind is Irq && pending@.len() > 0 && pending@[0] != Interrupt::Timer1) ==> ({
            &&& final(gs).queue() == old(gs).queue()
            &&& final(gs).current_id() == old(gs).current_id()
            &&& *final(tf) == *old(tf)
            &&& act == Action::HaltUnhandled(pending@[0])
        }),
        (info.kind is Irq && pending@.len() > 0 && pending@[0] == Interrupt::Timer1) ==> ({
            &&& switch_post(
                old(gs).queue(),
                old(gs).current_id(),
                State::Ready,
                now,
                *old(tf),
                final(gs).queue(),
                final(gs).current_id(),
                *final(tf),
            )
            &&& act == (if pending@.len() == 1 {
                Action::ArmTimer(TICK)
            } else {
                Action::HaltUnhandled(pending@[1])
            })
        }),
        (info.kind is Fiq || info.kind is SError) ==> ({
            &&& final(gs).queue() == old(gs).queue()
            &&& final(gs).current_id() == old(gs).current_id()
            &&& *final(tf) == *old(tf)
            &&& act == Action::Proceed
        }),
{
    match info.kind {
        Kind::Synchronous => {
            let syndrome = Syndrome::from(esr);
            match syndrome {
                Syndrome::Brk(_) => {
                    // Resume past the breakpoint instruction once the
                    // nested interpreter exits.
                    tf.pc = tf.pc + 4;
                    Action::DebugShell
                }
                Syndrome::Svc(n) => handle_syscall(n, now, gs, tf),
                _ => Action::Proceed,
            }
        }
        Kind::Irq => {
            if pending.len() == 0 {
                return Action::Proceed;
            }
            let first = pending[0];
            match first {
                Interrupt::Timer1 => {
                    let act = handle_irq(first, now, gs, tf);
                    if pending.len() > 1 {
                        // A second line is pending with no handler for it.
                        return Action::HaltUnhandled(pending[1]);
                    }
                    act
                }
                _ => Action::HaltUnhandled(first),
            }
        }
        _ => Action::Proceed,
    }
}

} // verus!

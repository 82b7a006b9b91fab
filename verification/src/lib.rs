//! Process-scheduling and trap-dispatch core of a single-core, bare-metal
//! kernel.
//!
//! The core turns periodic timer interrupts and synchronous CPU exceptions
//! into preemptive multitasking: a round-robin scheduler owns the live
//! process set, a dispatcher classifies traps and routes them to the IRQ
//! handler or the syscall layer, and blocking system calls are implemented
//! with per-process wake conditions evaluated on every scheduler scan.
//!
//! Everything that touches hardware (the timer, the interrupt controller,
//! the trap trampoline, the console) lives outside this crate. Hardware
//! state enters as plain values: the current time in microseconds, the set
//! of pending interrupt lines, and the saved trap frame. Decisions leave as
//! plain values: the identity of the process switched to, and an [`traps::Action`]
//! telling the surrounding trap glue what remains to be done.

pub mod interrupt;
pub mod process;
pub mod scheduler;
pub mod syndrome;
pub mod syscall;
pub mod trap_frame;
pub mod traps;
pub mod util;

//! The saved execution state of one process.

use vstd::prelude::*;

verus! {

/// A snapshot of the CPU-visible state needed to resume a computation
/// exactly where it left off.
///
/// The trap trampoline (external assembly) fills one of these on every trap
/// entry and restores one on every trap exit. The scheduler copies frames
/// between the live CPU state and the owning process, and the syscall layer
/// writes return values into them. Only the fields the core reads or writes
/// are modelled:
///
/// - `pc`: the resume address (where execution continues after the trap);
/// - `pstate`: the saved processor status;
/// - `sp`: the stack pointer;
/// - `tpidr`: the owner id, stamped in by the scheduler (not by hardware)
///   so a frame can always be traced back to its process;
/// - `x0`: the first argument / return-value register of a system call;
/// - `x7`: the status register of a system call (zero means success).
#[derive(Clone, Copy, Debug, PartialEq, Eq, Structural)]
pub struct TrapFrame {
    pub pc: u64,
    pub pstate: u64,
    pub sp: u64,
    pub tpidr: u64,
    pub x0: u64,
    pub x7: u64,
}

impl TrapFrame {
    /// The all-zero frame: the defined startup layout before a process is
    /// given an entry point and a stack.
    pub fn zeroed() -> (tf: TrapFrame)
        ensures
            tf == (TrapFrame { pc: 0, pstate: 0, sp: 0, tpidr: 0, x0: 0, x7: 0 }),
    {
        TrapFrame { pc: 0, pstate: 0, sp: 0, tpidr: 0, x0: 0, x7: 0 }
    }
}

} // verus!

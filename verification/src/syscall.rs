//! The syscall layer: blocking system calls built on the scheduler's
//! `Waiting` state.
//!
//! Dispatch is by a small integer syscall number carried in the supervisor
//! call's immediate. The one blocking call is `sleep`; an unrecognized
//! number writes a nonzero status and returns to its caller at once.

use vstd::prelude::*;

use vstd::arithmetic::div_mod::{lemma_div_by_multiple, lemma_div_is_ordered, lemma_div_nonincreasing};

use crate::process::{ready_at, woken, Process, SleepWait, State};
use crate::scheduler::{switch_post, switch_ret, GlobalScheduler};
use crate::trap_frame::TrapFrame;
use crate::traps::Action;

verus! {

/// The syscall number of `sleep`.
pub const SYS_SLEEP: u16 = 1;

/// The wake condition of a sleep of `ms` milliseconds issued at time `now`
/// (times in microseconds): due once the clock reaches `now + 1000 * ms`.
pub open spec fn sleep_wake_cond(now: u64, ms: u64) -> SleepWait {
    SleepWait { start: now, until: (now + ms * 1000) as u64 }
}

/// Sleep for `ms` milliseconds, issued at time `now` by the currently
/// running process, whose live frame is `tf`.
///
/// Records the issue time and the target wake time, and blocks the caller
/// by switching it to `Waiting` on that deadline. Once the scheduler's scan
/// finds the deadline due, the caller is woken with the approximate true
/// elapsed milliseconds in its first return register and a success status —
/// both committed into the caller's own frame by the wake itself.
///
/// Returns `Proceed` once another process's frame has been switched into
/// `tf`. Returns `Block` when nothing can run at `now`: the trap context
/// must halt until time advances and retry the switch with the returned
/// state.
pub fn sleep(ms: u64, now: u64, gs: &mut GlobalScheduler, tf: &mut TrapFrame) -> (act: Action)
    requires
        old(gs).wf(),
        old(gs).is_initialized(),
        old(gs).queue().len() > 0,
        old(tf).tpidr == old(gs).queue()[0].id_spec(),
        now + ms * 1000 <= u64::MAX,
    ensures
        final(gs).wf(),
        final(gs).is_initialized(),
        final(gs).last_issued() == old(gs).last_issued(),
        ({
            let w = sleep_wake_cond(now, ms);
            &&& switch_post(
                old(gs).queue(),
                old(gs).current_id(),
                State::Waiting(w),
                now,
                *old(tf),
                final(gs).queue(),
                final(gs).current_id(),
                *final(tf),
            )
            &&& act == (match switch_ret(old(gs).queue(), State::Waiting(w), *old(tf), now) {
                Some(_) => Action::Proceed,
                None => Action::Block(State::Waiting(w)),
            })
        }),
{
    let until = now + ms * 1000;
    let w = SleepWait { start: now, until };
    match gs.switch(State::Waiting(w), now, tf) {
        Some(_) => Action::Proceed,
        None => Action::Block(State::Waiting(w)),
    }
}

/// Dispatches syscall number `num`, issued at time `now` by the currently
/// running process with live frame `tf`.
///
/// Number 1 is `sleep`, with the duration in the caller's first argument
/// register. Any other number does not exist: the caller's status register
/// is set to a nonzero value and the call returns immediately — the caller
/// stays the running process and nothing else changes.
pub fn handle_syscall(num: u16, now: u64, gs: &mut GlobalScheduler, tf: &mut TrapFrame) -> (act:
    Action)
    requires
        old(gs).wf(),
        old(gs).is_initialized(),
        old(gs).queue().len() > 0,
        old(tf).tpidr == old(gs).queue()[0].id_spec(),
        num == SYS_SLEEP ==> now + old(tf).x0 * 1000 <= u64::MAX,
    ensures
        final(gs).wf(),
        final(gs).is_initialized(),
        final(gs).last_issued() == old(gs).last_issued(),
        num == SYS_SLEEP ==> ({
            let w = sleep_wake_cond(now, old(tf).x0);
            &&& switch_post(
                old(gs).queue(),
                old(gs).current_id(),
                State::Waiting(w),
                now,
                *old(tf),
                final(gs).queue(),
                final(gs).current_id(),
                *final(tf),
            )
            &&& act == (match switch_ret(old(gs).queue(), State::Waiting(w), *old(tf), now) {
                Some(_) => Action::Proceed,
                None => Action::Block(State::Waiting(w)),
            })
        }),
        num != SYS_SLEEP ==> ({
            &&& final(gs).queue() == old(gs).queue()
            &&& final(gs).current_id() == old(gs).current_id()
            &&& *final(tf) == (TrapFrame { x7: 1, ..*old(tf) })
            &&& act == Action::Proceed
        }),
{
    if num == SYS_SLEEP {
        let ms = tf.x0;
        sleep(ms, now, gs, tf)
    } else {
        // The system call does not exist.
        tf.x7 = 1;
        Action::Proceed
    }
}

/// Law: a sleep of `ms` milliseconds issued at time `start` is not due —
/// and so is never completed by a switch — before time `start + 1000 * ms`;
/// and whenever it is woken, the elapsed time it reports is at least `ms`
/// milliseconds, with a success status.
pub proof fn lemma_sleep_wakes_on_time(p: Process, ms: u64, start: u64, now: u64)
    requires
        start + ms * 1000 <= u64::MAX,
        p.state == State::Waiting(sleep_wake_cond(start, ms)),
    ensures
        now < start + ms * 1000 ==> !ready_at(p, now),
        now >= start + ms * 1000 ==> {
            &&& ready_at(p, now)
            &&& woken(p, now).state is Ready
            &&& woken(p, now).trap_frame.x7 == 0
            &&& woken(p, now).trap_frame.x0 >= ms
        },
{
    let until = start + ms * 1000;
    if now >= until {
        let elapsed = now - start;
        assert(elapsed >= ms * 1000);
        lemma_div_is_ordered(ms as int * 1000, elapsed, 1000);
        lemma_div_by_multiple(ms as int, 1000);
        assert(ms * 1000 as int / 1000 == ms);
        lemma_div_nonincreasing(elapsed, 1000);
        assert(woken(p, now).trap_frame.x0 == elapsed / 1000);
    }
}

} // verus!

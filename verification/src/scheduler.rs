//! The round-robin scheduler and its lock-protected global wrapper.
//!
//! One ordered queue serves both ready and waiting processes. A context
//! switch saves the departing process at the back and scans forward from the
//! process behind it, waking due sleepers as it visits them; the first
//! runnable process found is made `Running`, recorded as current, and placed
//! at the front, so the next switch finds it there again.

use vstd::prelude::*;

use vstd::arithmetic::div_mod::{lemma_mod_self_0, lemma_small_mod};

use crate::process::{ready_at, state_ready_at, woken, Id, Process, State};
use crate::trap_frame::TrapFrame;

verus! {

/// The scheduling quantum: the timer is re-armed to fire this many
/// microseconds after each timer interrupt.
pub const TICK: u32 = 10 * 1000;

// ---------------------------------------------------------------------------
// Spec toolbox: what one context switch does to the queue.
// ---------------------------------------------------------------------------

/// The identities of the queued processes, in queue order.
pub open spec fn queue_ids(q: Seq<Process>) -> Seq<Id> {
    q.map(|i: int, p: Process| p.id_spec())
}

/// No two queued processes share an identity.
pub open spec fn ids_unique(q: Seq<Process>) -> bool {
    forall|i: int, j: int|
        0 <= i < j < q.len() ==> q[i].id_spec() != q[j].id_spec()
}

/// Every queued process satisfies its own invariant.
pub open spec fn procs_inv(q: Seq<Process>) -> bool {
    forall|i: int| 0 <= i < q.len() ==> (#[trigger] q[i]).inv()
}

/// Only the front of the queue may be `Running`: the scheduler parks the
/// running process at the front precisely so that the next switch pops it
/// first.
pub open spec fn running_only_at_front(q: Seq<Process>) -> bool {
    forall|i: int| 0 < i < q.len() ==> !((#[trigger] q[i]).state is Running)
}

/// Every queued identity was issued: none exceeds the last issued id.
pub open spec fn ids_issued(q: Seq<Process>, last: Option<Id>) -> bool {
    match last {
        None => q.len() == 0,
        Some(l) => forall|i: int| 0 <= i < q.len() ==> (#[trigger] q[i]).id_spec() <= l,
    }
}

/// The departing process as it re-enters the queue: the live frame is saved
/// into it and its state becomes `new_state`.
pub open spec fn saved_process(tf: TrapFrame, new_state: State) -> Process {
    Process { trap_frame: tf, state: new_state }
}

/// The order in which one switch visits the queue: everything behind the
/// departing front process, then that process itself, saved at the back.
pub open spec fn scan_seq(q: Seq<Process>, new_state: State, tf: TrapFrame) -> Seq<Process> {
    q.subrange(1, q.len() as int).push(saved_process(tf, new_state))
}

/// The position of the first process the scan can run at time `now`, or -1
/// if a full lap finds none.
pub open spec fn first_ready(scan: Seq<Process>, now: u64) -> int
    decreases scan.len(),
{
    if scan.len() == 0 {
        -1
    } else if ready_at(scan[0], now) {
        0
    } else {
        let rest = first_ready(scan.subrange(1, scan.len() as int), now);
        if rest == -1 {
            -1
        } else {
            rest + 1
        }
    }
}

/// A process as it leaves the scan as the new current process.
pub open spec fn run(p: Process) -> Process {
    Process { state: State::Running, ..p }
}

/// The queue a successful switch leaves behind: the chosen process — woken
/// and made `Running` — at the front, then the processes the scan had not
/// yet visited, then the ones it had passed over, in visiting order.
pub open spec fn switched_queue(scan: Seq<Process>, now: u64) -> Seq<Process> {
    let j = first_ready(scan, now);
    seq![run(woken(scan[j], now))] + scan.subrange(j + 1, scan.len() as int)
        + scan.subrange(0, j)
}

/// The identity a switch returns, if any: `None` when the queue is empty
/// (scheduling never started) and when no process can run at `now`.
pub open spec fn switch_ret(q0: Seq<Process>, new_state: State, tf0: TrapFrame, now: u64) -> Option<
    Id,
> {
    if q0.len() == 0 {
        None
    } else {
        let scan = scan_seq(q0, new_state, tf0);
        let j = first_ready(scan, now);
        if j < 0 {
            None
        } else {
            Some(woken(scan[j], now).id_spec())
        }
    }
}

/// How one switch relates the scheduler's queue, current id and live frame
/// before (`q0`, `cur0`, `tf0`) and after (`q1`, `cur1`, `tf1`) the call.
///
/// With an empty queue nothing happens. Otherwise the front process is saved
/// with `new_state`; if some process can run at `now`, the first one in scan
/// order becomes the running front and its frame is restored into the live
/// frame, and if none can, the saved process stays in place at the front so
/// that retrying the same switch at a later time picks up where this one
/// left off.
pub open spec fn switch_post(
    q0: Seq<Process>,
    cur0: Option<Id>,
    new_state: State,
    now: u64,
    tf0: TrapFrame,
    q1: Seq<Process>,
    cur1: Option<Id>,
    tf1: TrapFrame,
) -> bool {
    if q0.len() == 0 {
        q1 == q0 && cur1 == cur0 && tf1 == tf0
    } else {
        let scan = scan_seq(q0, new_state, tf0);
        let j = first_ready(scan, now);
        if j < 0 {
            &&& q1 == q0.update(0, saved_process(tf0, new_state))
            &&& cur1 == cur0
            &&& tf1 == tf0
        } else {
            let cand = woken(scan[j], now);
            &&& q1 == switched_queue(scan, now)
            &&& cur1 == Some(cand.id_spec())
            &&& tf1 == cand.trap_frame
        }
    }
}

/// The next identity the scheduler would issue: 0 at first, then one more
/// than the last issued; `None` once the id space is exhausted — ids
/// saturate, they are never reused.
pub open spec fn next_id(last: Option<Id>) -> Option<Id> {
    match last {
        None => Some(0),
        Some(l) => if l == u64::MAX {
            None
        } else {
            Some((l + 1) as u64)
        },
    }
}

/// A process as `add` enqueues it: the issued id stamped into its frame.
pub open spec fn stamped(p: Process, id: Id) -> Process {
    Process { trap_frame: TrapFrame { tpidr: id, ..p.trap_frame }, ..p }
}

/// A process as `start` registers it: a fresh process on its own stack,
/// initialized to its entry point and ready to run, identity not yet
/// stamped.
pub open spec fn first_started(entry: u64, stack: u64) -> Process {
    Process {
        trap_frame: TrapFrame { pc: entry, pstate: 0, sp: stack, tpidr: 0, x0: 0, x7: 0 },
        state: State::Ready,
    }
}

/// Whether a switch of the front process of `q` to `new_state` at time `now`
/// can find a process to run.
pub open spec fn progress_at(q: Seq<Process>, new_state: State, now: u64) -> bool {
    &&& q.len() > 0
    &&& (state_ready_at(new_state, now) || exists|i: int|
        1 <= i < q.len() && ready_at(#[trigger] q[i], now))
}

// ---------------------------------------------------------------------------
// Facts about the scan.
// ---------------------------------------------------------------------------

/// Characterizes `first_ready`: the result lies in `[-1, len)`; when it is a
/// position, the process there can run and no earlier one can; when it is
/// -1, no process in the scan can run.
pub proof fn lemma_first_ready(scan: Seq<Process>, now: u64)
    ensures
        -1 <= first_ready(scan, now) < scan.len(),
        first_ready(scan, now) >= 0 ==> ready_at(scan[first_ready(scan, now)], now),
        forall|k: int|
            0 <= k < scan.len() && (first_ready(scan, now) == -1 || k < first_ready(scan, now))
                ==> !ready_at(#[trigger] scan[k], now),
    decreases scan.len(),
{
    if scan.len() == 0 {
    } else if ready_at(scan[0], now) {
    } else {
        let tail = scan.subrange(1, scan.len() as int);
        lemma_first_ready(tail, now);
        assert forall|k: int|
            0 <= k < scan.len() && (first_ready(scan, now) == -1 || k < first_ready(scan, now))
                implies !ready_at(#[trigger] scan[k], now) by {
            if k > 0 {
                assert(scan[k] == tail[k - 1]);
            }
        }
    }
}

/// Where each process of the scan ends up after a successful switch: the
/// chosen process moves to the front, the ones behind it close ranks behind
/// it, and the ones the scan passed over queue up at the back, order kept.
pub proof fn lemma_switched_shape(scan: Seq<Process>, now: u64)
    requires
        0 <= first_ready(scan, now) < scan.len(),
    ensures
        ({
            let j = first_ready(scan, now);
            let sw = switched_queue(scan, now);
            &&& sw.len() == scan.len()
            &&& sw[0] == run(woken(scan[j], now))
            &&& (forall|m: int| 1 <= m <= scan.len() - 1 - j ==> #[trigger] sw[m] == scan[m + j])
            &&& (forall|m: int|
                scan.len() - j <= m < scan.len() ==> #[trigger] sw[m] == scan[m + j - scan.len()])
        }),
{
    let j = first_ready(scan, now);
    let sw = switched_queue(scan, now);
    assert forall|m: int| 1 <= m <= scan.len() - 1 - j implies #[trigger] sw[m] == scan[m + j] by {
        assert(sw[m] == scan.subrange(j + 1, scan.len() as int)[m - 1]);
    }
    assert forall|m: int| scan.len() - j <= m < scan.len() implies #[trigger] sw[m] == scan[m + j
        - scan.len()] by {
        assert(sw[m] == scan.subrange(0, j)[m - (scan.len() - j)]);
    }
}

/// The live process set: an ordered queue of owned processes, the identity
/// of the current process, and the last identity issued.
pub struct Scheduler {
    processes: Vec<Process>,
    current: Option<Id>,
    last_id: Option<Id>,
}

impl Scheduler {
    /// The queue of live processes, front first.
    pub closed spec fn queue(&self) -> Seq<Process> {
        self.processes@
    }

    /// The identity of the current process, if scheduling has begun.
    pub closed spec fn current_id(&self) -> Option<Id> {
        self.current
    }

    /// The last process identity issued, if any.
    pub closed spec fn last_issued(&self) -> Option<Id> {
        self.last_id
    }

    /// The scheduler's invariant: identities are unique and were all issued;
    /// at most one process is `Running` and only at the front; a current id
    /// exists exactly once the queue is populated, and names a live process;
    /// and each process's own invariant holds.
    pub open spec fn wf(&self) -> bool {
        &&& ids_unique(self.queue())
        &&& procs_inv(self.queue())
        &&& running_only_at_front(self.queue())
        &&& ids_issued(self.queue(), self.last_issued())
        &&& (self.current_id() is Some <==> self.queue().len() > 0)
        &&& (self.current_id() matches Some(c) ==> exists|i: int|
            0 <= i < self.queue().len() && (#[trigger] self.queue()[i]).id_spec() == c)
    }

    /// Returns a scheduler with an empty queue: no process, no current id,
    /// no identity issued yet.
    pub fn new() -> (s: Scheduler)
        ensures
            s.queue() =~= Seq::<Process>::empty(),
            s.current_id() is None,
            s.last_issued() is None,
            s.wf(),
    {
        Scheduler { processes: Vec::new(), current: None, last_id: None }
    }

    /// Issues the next process identity: 0 the first time, afterwards one
    /// more than the last. Once the id space is exhausted the allocator
    /// saturates: it returns `None` and never reuses an id.
    fn inc_id(&mut self) -> (r: Option<Id>)
        ensures
            r == next_id(old(self).last_issued()),
            final(self).last_issued() == if r is Some {
                r
            } else {
                old(self).last_issued()
            },
            final(self).queue() == old(self).queue(),
            final(self).current_id() == old(self).current_id(),
    {
        match self.last_id {
            None => {
                self.last_id = Some(0);
            }
            Some(id) => {
                if id == u64::MAX {
                    return None;
                }
                self.last_id = Some(id + 1);
            }
        }
        self.last_id
    }

    /// Adds a process to the back of the queue and returns its newly issued
    /// identity, which is stamped into the process's frame. Returns `None`
    /// if and only if the id space is exhausted, in which case nothing
    /// changes — a fatal condition for the caller.
    ///
    /// If this is the first process added, it becomes the current process:
    /// the caller must ensure it is the one executing when `switch` first
    /// runs.
    ///
    /// Every id issued is strictly greater than the id of every process
    /// already in the queue: successive `add` calls issue strictly
    /// increasing, never-reused identities.
    pub fn add(&mut self, process: Process) -> (r: Option<Id>)
        requires
            old(self).wf(),
            process.state is Ready,
        ensures
            final(self).wf(),
            r == next_id(old(self).last_issued()),
            match r {
                Some(id) => {
                    &&& final(self).queue() == old(self).queue().push(stamped(process, id))
                    &&& final(self).last_issued() == Some(id)
                    &&& final(self).current_id() == (if old(self).current_id() is Some {
                        old(self).current_id()
                    } else {
                        Some(id)
                    })
                    &&& forall|i: int|
                        0 <= i < old(self).queue().len() ==> (#[trigger] old(
                            self,
                        ).queue()[i]).id_spec() < id
                },
                None => {
                    &&& final(self).queue() == old(self).queue()
                    &&& final(self).last_issued() == old(self).last_issued()
                    &&& final(self).current_id() == old(self).current_id()
                },
            },
    {
        let ghost p0 = process;
        let id = match self.inc_id() {
            Some(id) => id,
            None => {
                return None;
            }
        };
        let mut process = process;
        process.trap_frame.tpidr = id;
        self.processes.push(process);
        if self.current.is_none() {
            self.current = Some(id);
        }
        proof {
            let q0 = old(self).queue();
            let q1 = self.processes@;
            let n = q0.len() as int;
            assert(q1 =~= q0.push(stamped(p0, id)));
            assert forall|i: int| 0 <= i < n implies (#[trigger] q0[i]).id_spec() < id by {
                assert(q0[i].id_spec() <= old(self).last_issued()->Some_0);
            }
            assert(q1[n].id_spec() == id);
            assert forall|i: int, j: int| 0 <= i < j < q1.len() implies q1[i].id_spec()
                != q1[j].id_spec() by {
                if j < n {
                    assert(q0[i].id_spec() != q0[j].id_spec());
                } else {
                    assert(q0[i].id_spec() < id);
                }
            }
            match old(self).current_id() {
                Some(c) => {
                    let w = choose|i: int| 0 <= i < n && (#[trigger] q0[i]).id_spec() == c;
                    assert(q1[w].id_spec() == c);
                }
                None => {}
            }
        }
        Some(id)
    }

    /// Whether a switch to `new_state` at time `now` can find a process to
    /// run: the departing process itself stays runnable, or some other
    /// queued process is ready or due to wake. While this is false the core
    /// has nothing to run; the trap context halts in a low-power wait and
    /// retries the same switch once time has advanced.
    pub open spec fn progress_possible(&self, new_state: State, now: u64) -> bool {
        progress_at(self.queue(), new_state, now)
    }

    /// Performs a context switch: saves the live frame `tf` into the current
    /// front process, gives that process the state `new_state`, and moves it
    /// to the back; then scans forward from the process behind it, waking
    /// due sleepers, until it finds one that can run. That process becomes
    /// `Running` and current, its saved frame is restored into `tf`, and it
    /// is placed at the front so the next switch pops it first. Returns the
    /// identity switched to.
    ///
    /// Returns `None` if and only if no progress is possible: either the
    /// queue is empty (scheduling never started — fatal for the caller), or
    /// every process is waiting on a condition not yet due at `now`. In the
    /// latter case the saved process keeps its place at the front and
    /// nothing else changes, so the caller can halt the core and retry the
    /// same switch with a later time; once at least one process is kept
    /// `Ready`, a switch to `Ready` never returns `None`.
    #[verifier::loop_isolation(false)]
    #[verifier::rlimit(60)]
    pub fn switch(&mut self, new_state: State, now: u64, tf: &mut TrapFrame) -> (r: Option<Id>)
        requires
            old(self).wf(),
            !(new_state is Running),
            new_state matches State::Waiting(w) ==> w.start <= w.until,
            old(self).queue().len() > 0 ==> old(tf).tpidr == old(self).queue()[0].id_spec(),
        ensures
            final(self).wf(),
            final(self).last_issued() == old(self).last_issued(),
            r == switch_ret(old(self).queue(), new_state, *old(tf), now),
            switch_post(
                old(self).queue(),
                old(self).current_id(),
                new_state,
                now,
                *old(tf),
                final(self).queue(),
                final(self).current_id(),
                *final(tf),
            ),
            r is Some <==> old(self).progress_possible(new_state, now),
    {
        if self.processes.len() == 0 {
            return None;
        }
        let ghost q0 = self.processes@;
        let mut cur = self.processes.remove(0);
        cur.trap_frame = *tf;
        cur.state = new_state;
        self.processes.push(cur);
        let ghost scan = scan_seq(q0, new_state, *old(tf));
        let ghost j = first_ready(scan, now);
        let n = self.processes.len();
        proof {
            assert(self.processes@ =~= scan);
            lemma_first_ready(scan, now);
            // Every scanned process satisfies its invariant, and none but
            // possibly the old front was or becomes `Running`.
            assert forall|k: int| 0 <= k < n implies (#[trigger] scan[k]).inv() && !(scan[k].state
                is Running) by {
                if k < n - 1 {
                    assert(scan[k] == q0[k + 1]);
                }
            }
            // The scan carries the same identities as the queue, rotated by
            // one, so they stay pairwise distinct.
            assert(scan[n - 1].id_spec() == q0[0].id_spec());
            assert forall|a: int, b: int| 0 <= a < b < n implies (#[trigger] scan[a]).id_spec() != (
            #[trigger] scan[b]).id_spec() by {
                if b < n - 1 {
                    assert(q0[a + 1].id_spec() != q0[b + 1].id_spec());
                } else {
                    assert(q0[0].id_spec() != q0[a + 1].id_spec());
                }
            }
        }
        let mut i: usize = 0;
        while i < n
            invariant
                0 < n == scan.len(),
                0 <= i <= n,
                self.processes@ =~= scan.subrange(i as int, n as int) + scan.subrange(
                    0,
                    i as int,
                ),
                forall|k: int| 0 <= k < i ==> !ready_at(#[trigger] scan[k], now),
                forall|k: int|
                    0 <= k < n ==> (#[trigger] scan[k]).inv() && !(scan[k].state is Running),
                forall|a: int, b: int|
                    0 <= a < b < n ==> (#[trigger] scan[a]).id_spec() != (
                    #[trigger] scan[b]).id_spec(),
                self.current_id() == old(self).current_id(),
                self.last_issued() == old(self).last_issued(),
                *tf == *old(tf),
            decreases n - i,
        {
            let mut p = self.processes.remove(0);
            proof {
                assert(self.processes@.insert(0, p) =~= scan.subrange(i as int, n as int)
                    + scan.subrange(0, i as int));
                assert(p == scan[i as int]);
            }
            if p.try_wake(now) {
                *tf = p.trap_frame;
                p.state = State::Running;
                let id = p.id();
                self.current = Some(id);
                self.processes.insert(0, p);
                proof {
                    lemma_first_ready(scan, now);
                    assert(j == i as int);
                    lemma_switched_shape(scan, now);
                    let sw = switched_queue(scan, now);
                    assert(p == run(woken(scan[j], now)));
                    assert(self.processes@ =~= sw);
                    assert(woken(scan[j], now).trap_frame.tpidr == scan[j].trap_frame.tpidr);
                    // Each queue slot carries the identity of a distinct
                    // scan slot, so identities stay pairwise distinct.
                    assert forall|a: int, b: int| 0 <= a < b < n implies (
                    #[trigger] sw[a]).id_spec() != (#[trigger] sw[b]).id_spec() by {
                        let ia = if a + j < n {
                            a + j
                        } else {
                            a + j - n
                        };
                        let ib = if b + j < n {
                            b + j
                        } else {
                            b + j - n
                        };
                        assert(sw[a].id_spec() == scan[ia].id_spec());
                        assert(sw[b].id_spec() == scan[ib].id_spec());
                        assert(ia != ib);
                        if ia < ib {
                            assert(scan[ia].id_spec() != scan[ib].id_spec());
                        } else {
                            assert(scan[ib].id_spec() != scan[ia].id_spec());
                        }
                    }
                    // A runnable process was found, so progress was possible.
                    if j < n - 1 {
                        assert(scan[j] == q0[j + 1]);
                        assert(ready_at(q0[j + 1], now));
                    } else {
                        assert(scan[j] == saved_process(*old(tf), new_state));
                    }
                }
                return Some(id);
            }
            self.processes.push(p);
            proof {
                assert(self.processes@ =~= scan.subrange(i as int + 1, n as int) + scan.subrange(
                    0,
                    i as int + 1,
                ));
            }
            i += 1;
        }
        // A full lap found nothing to run: put the saved process back at the
        // front, where the departing front process stood, and report that
        // only a later time can make progress.
        let saved = self.processes.remove(n - 1);
        self.processes.insert(0, saved);
        proof {
            lemma_first_ready(scan, now);
            assert(j == -1);
            assert(saved == saved_process(*old(tf), new_state));
            assert(self.processes@ =~= q0.update(0, saved_process(*old(tf), new_state)));
            assert(saved.id_spec() == q0[0].id_spec());
            // Nothing in the scan could run, so no progress was possible:
            // neither the saved process nor any process behind the front.
            assert(scan[n - 1] == saved_process(*old(tf), new_state));
            assert(!ready_at(scan[n - 1], now));
            assert forall|k: int| 1 <= k < q0.len() implies !ready_at(#[trigger] q0[k], now) by {
                assert(q0[k] == scan[k - 1]);
            }
            match old(self).current_id() {
                Some(c) => {
                    let w = choose|k: int|
                        0 <= k < q0.len() && (#[trigger] q0[k]).id_spec() == c;
                    assert(self.processes@[w].id_spec() == c);
                }
                None => {}
            }
        }
        None
    }

    /// The identity of the current process, if scheduling has begun.
    pub fn current(&self) -> (r: Option<Id>)
        ensures
            r == self.current_id(),
    {
        self.current
    }

    /// The number of live processes.
    pub fn len(&self) -> (r: usize)
        ensures
            r == self.queue().len(),
    {
        self.processes.len()
    }

    /// The scheduling state of the process at queue position `i`.
    pub fn state_at(&self, i: usize) -> (r: State)
        requires
            i < self.queue().len(),
        ensures
            r == self.queue()[i as int].state,
    {
        self.processes[i].state
    }
}

// ---------------------------------------------------------------------------
// The lock-protected singleton.
// ---------------------------------------------------------------------------

/// The machine-wide scheduler: absent until `start` runs, then one
/// `Scheduler` serving every interrupt and syscall handler. On the target
/// the value sits behind a mutual-exclusion lock held for the duration of
/// each call; trap entry is the sole source of re-entrancy and further
/// interrupts stay masked while a handler runs, so one logical thread of
/// kernel control runs at a time and the lock lives at the edge, outside
/// this crate.
pub struct GlobalScheduler {
    inner: Option<Scheduler>,
}

impl GlobalScheduler {
    /// Whether `start` has built the scheduler yet. Using the scheduler
    /// before then is a fatal precondition violation.
    pub closed spec fn is_initialized(&self) -> bool {
        self.inner is Some
    }

    /// The queue of live processes, front first; empty until initialized.
    pub closed spec fn queue(&self) -> Seq<Process> {
        match self.inner {
            Some(s) => s.queue(),
            None => Seq::empty(),
        }
    }

    /// The identity of the current process, if scheduling has begun.
    pub closed spec fn current_id(&self) -> Option<Id> {
        match self.inner {
            Some(s) => s.current_id(),
            None => None,
        }
    }

    /// The last process identity issued, if any.
    pub closed spec fn last_issued(&self) -> Option<Id> {
        match self.inner {
            Some(s) => s.last_issued(),
            None => None,
        }
    }

    /// The wrapped scheduler's invariant, when one exists.
    pub closed spec fn wf(&self) -> bool {
        match self.inner {
            Some(s) => s.wf(),
            None => true,
        }
    }

    /// Whether scheduling has started: the scheduler exists and owns at
    /// least one process.
    pub open spec fn started(&self) -> bool {
        self.is_initialized() && self.queue().len() > 0
    }

    /// Whether a switch to `new_state` at time `now` can find a process to
    /// run.
    pub open spec fn progress_possible(&self, new_state: State, now: u64) -> bool {
        progress_at(self.queue(), new_state, now)
    }

    /// Returns the wrapper in its pristine state: no scheduler exists until
    /// `start` builds one.
    pub fn uninitialized() -> (gs: GlobalScheduler)
        ensures
            !gs.is_initialized(),
            gs.wf(),
            gs.queue() =~= Seq::<Process>::empty(),
            gs.current_id() is None,
            gs.last_issued() is None,
    {
        GlobalScheduler { inner: None }
    }

    /// Adds a process to the scheduler's queue and returns its newly issued
    /// identity, or `None` on id-space exhaustion. See [`Scheduler::add`].
    pub fn add(&mut self, process: Process) -> (r: Option<Id>)
        requires
            old(self).wf(),
            old(self).is_initialized(),
            process.state is Ready,
        ensures
            final(self).wf(),
            final(self).is_initialized(),
            r == next_id(old(self).last_issued()),
            match r {
                Some(id) => {
                    &&& final(self).queue() == old(self).queue().push(stamped(process, id))
                    &&& final(self).last_issued() == Some(id)
                    &&& final(self).current_id() == (if old(self).current_id() is Some {
                        old(self).current_id()
                    } else {
                        Some(id)
                    })
                    &&& forall|i: int|
                        0 <= i < old(self).queue().len() ==> (#[trigger] old(
                            self,
                        ).queue()[i]).id_spec() < id
                },
                None => {
                    &&& final(self).queue() == old(self).queue()
                    &&& final(self).last_issued() == old(self).last_issued()
                    &&& final(self).current_id() == old(self).current_id()
                },
            },
    {
        match &mut self.inner {
            Some(s) => s.add(process),
            None => None,
        }
    }

    /// Performs a context switch on `tf`, serialized behind the machine-wide
    /// lock. See [`Scheduler::switch`].
    pub fn switch(&mut self, new_state: State, now: u64, tf: &mut TrapFrame) -> (r: Option<Id>)
        requires
            old(self).wf(),
            old(self).is_initialized(),
            !(new_state is Running),
            new_state matches State::Waiting(w) ==> w.start <= w.until,
            old(self).queue().len() > 0 ==> old(tf).tpidr == old(self).queue()[0].id_spec(),
        ensures
            final(self).wf(),
            final(self).is_initialized(),
            final(self).last_issued() == old(self).last_issued(),
            r == switch_ret(old(self).queue(), new_state, *old(tf), now),
            switch_post(
                old(self).queue(),
                old(self).current_id(),
                new_state,
                now,
                *old(tf),
                final(self).queue(),
                final(self).current_id(),
                *final(tf),
            ),
            r is Some <==> old(self).progress_possible(new_state, now),
    {
        match &mut self.inner {
            Some(s) => s.switch(new_state, now, tf),
            None => None,
        }
    }

    /// The identity of the current process, if scheduling has begun.
    pub fn current(&self) -> (r: Option<Id>)
        requires
            self.is_initialized(),
        ensures
            r == self.current_id(),
    {
        match &self.inner {
            Some(s) => s.current(),
            None => None,
        }
    }

    /// The number of live processes.
    pub fn len(&self) -> (r: usize)
        requires
            self.is_initialized(),
        ensures
            r == self.queue().len(),
    {
        match &self.inner {
            Some(s) => s.len(),
            None => 0,
        }
    }

    /// The scheduling state of the process at queue position `i`.
    pub fn state_at(&self, i: usize) -> (r: State)
        requires
            self.is_initialized(),
            i < self.queue().len(),
        ensures
            r == self.queue()[i as int].state,
    {
        match &self.inner {
            Some(s) => s.state_at(i),
            None => State::Ready,
        }
    }

    /// Builds the scheduler and registers its two fixed processes: the
    /// interactive shell first, the heartbeat second, each initialized to
    /// its entry point on its own stack. The shell, stamped with identity 0,
    /// becomes the current process, and its trap frame is returned so that
    /// the surrounding startup code can arm the periodic timer and perform
    /// the one-time handoff of that frame into the live CPU state — a call
    /// that never returns in normal operation.
    pub fn start(
        &mut self,
        shell_entry: u64,
        shell_stack: u64,
        heartbeat_entry: u64,
        heartbeat_stack: u64,
    ) -> (tf: TrapFrame)
        ensures
            final(self).wf(),
            final(self).is_initialized(),
            final(self).started(),
            final(self).queue().len() == 2,
            final(self).queue()[0] == stamped(first_started(shell_entry, shell_stack), 0),
            final(self).queue()[1] == stamped(first_started(heartbeat_entry, heartbeat_stack), 1),
            final(self).current_id() == Some(0u64),
            final(self).last_issued() == Some(1u64),
            tf == final(self).queue()[0].trap_frame,
    {
        let mut sched = Scheduler::new();
        let mut first = Process::new(shell_stack);
        first.init(shell_entry);
        let first_id = sched.add(first);
        let mut second = Process::new(heartbeat_stack);
        second.init(heartbeat_entry);
        let second_id = sched.add(second);
        let tf = TrapFrame {
            pc: shell_entry,
            pstate: 0,
            sp: shell_stack,
            tpidr: 0,
            x0: 0,
            x7: 0,
        };
        proof {
            assert(sched.queue()[0].trap_frame == tf);
        }
        self.inner = Some(sched);
        tf
    }
}

// ---------------------------------------------------------------------------
// Laws of the scheduler.
// ---------------------------------------------------------------------------

/// Law: identities issued by successive `add` calls strictly increase, for
/// every call sequence. After an `add` issues `id1`, the last issued id is
/// `id1`, so whatever the next successful `add` issues is greater.
pub proof fn lemma_issued_ids_strictly_increase(last0: Option<Id>, id1: Id, id2: Id)
    requires
        next_id(last0) == Some(id1),
        next_id(Some(id1)) == Some(id2),
    ensures
        id1 < id2,
{
}

/// Law: an issued identity is unique — it exceeds, and so never collides
/// with, the identity of every process added before it.
pub proof fn lemma_issued_id_fresh(s: Scheduler, id: Id)
    requires
        s.wf(),
        next_id(s.last_issued()) == Some(id),
    ensures
        forall|i: int| 0 <= i < s.queue().len() ==> (#[trigger] s.queue()[i]).id_spec() < id,
{
}

/// Law: once at least one process has been added, a switch that keeps the
/// departing process ready can always make progress — so by the `switch`
/// contract it never returns an absent identity. Only a switch that puts
/// the departing process to sleep can have nothing to run, and then only
/// until time reaches a wake condition.
pub proof fn lemma_switch_to_ready_never_blocks(s: Scheduler, now: u64)
    requires
        s.queue().len() > 0,
    ensures
        s.progress_possible(State::Ready, now),
{
}

/// The queue's identities rotated left by one position.
pub open spec fn rotl(s: Seq<Id>) -> Seq<Id> {
    s.subrange(1, s.len() as int).push(s[0])
}

/// The queue's identities rotated left `n` times.
pub open spec fn rotl_n(s: Seq<Id>, n: nat) -> Seq<Id>
    decreases n,
{
    if n == 0 {
        s
    } else {
        rotl_n(rotl(s), (n - 1) as nat)
    }
}

/// Rotating `k <= len` times moves the element at `m + k`, wrapped around
/// the end, to position `m`.
pub proof fn lemma_rotl_n_index(s: Seq<Id>, k: nat, m: int)
    requires
        s.len() > 0,
        0 <= m < s.len(),
        k <= s.len(),
    ensures
        rotl_n(s, k).len() == s.len(),
        rotl_n(s, k)[m] == if m + k < s.len() {
            s[m + k]
        } else {
            s[m + k - s.len()]
        },
    decreases k,
{
    if k > 0 {
        lemma_rotl_n_index(rotl(s), (k - 1) as nat, m);
    }
}

/// Rotations compose: rotating `a + b` times is rotating `a` times, then
/// `b` more.
pub proof fn lemma_rotl_n_adds(s: Seq<Id>, a: nat, b: nat)
    ensures
        rotl_n(s, a + b) == rotl_n(rotl_n(s, a), b),
    decreases a,
{
    if a > 0 {
        lemma_rotl_n_adds(rotl(s), (a - 1) as nat, b);
    }
}

/// Rotating a queue of `len` identities `len` times restores it exactly.
pub proof fn lemma_rotl_full_lap(s: Seq<Id>)
    requires
        s.len() > 0,
    ensures
        rotl_n(s, s.len()) =~= s,
{
    assert forall|m: int| 0 <= m < s.len() implies rotl_n(s, s.len())[m] == s[m] by {
        lemma_rotl_n_index(s, s.len(), m);
    }
    lemma_rotl_n_index(s, s.len(), 0);
}

/// Rotation preserves the number of identities.
pub proof fn lemma_rotl_n_len(s: Seq<Id>, n: nat)
    requires
        s.len() > 0,
    ensures
        rotl_n(s, n).len() == s.len(),
    decreases n,
{
    if n > 0 {
        lemma_rotl_n_len(rotl(s), (n - 1) as nat);
    }
}

/// Law: the round-robin order is periodic. With `k` processes, all kept
/// permanently ready, every switch rotates the queue's identities left by
/// one (see [`lemma_all_ready_switch_rotates`]), so `k` consecutive switches
/// restore the queue — the sequence of current identities repeats with
/// period `k`.
pub proof fn lemma_round_robin_period(s: Seq<Id>, n: nat)
    requires
        s.len() >= 1,
    ensures
        rotl_n(s, n + s.len()) == rotl_n(s, n),
{
    lemma_rotl_n_adds(s, n, s.len());
    lemma_rotl_n_len(s, n);
    lemma_rotl_full_lap(rotl_n(s, n));
}

/// Law: while every other process is ready, a switch that keeps the
/// departing process ready selects the process right behind it and rotates
/// the queue's identities left by exactly one position.
pub proof fn lemma_all_ready_switch_rotates(q0: Seq<Process>, tf0: TrapFrame, now: u64)
    requires
        q0.len() > 0,
        tf0.tpidr == q0[0].id_spec(),
        forall|i: int| 1 <= i < q0.len() ==> (#[trigger] q0[i]).state is Ready,
    ensures
        switch_ret(q0, State::Ready, tf0, now) == Some(
            q0[1int % q0.len() as int].id_spec(),
        ),
        queue_ids(switched_queue(scan_seq(q0, State::Ready, tf0), now)) == rotl(queue_ids(q0)),
{
    let scan = scan_seq(q0, State::Ready, tf0);
    let n = q0.len() as int;
    if n >= 2 {
        assert(scan[0] == q0[1]);
        lemma_small_mod(1nat, n as nat);
    } else {
        assert(scan[0] == saved_process(tf0, State::Ready));
        lemma_mod_self_0(n);
    }
    assert(ready_at(scan[0], now));
    assert(first_ready(scan, now) == 0);
    assert(scan[0].id_spec() == q0[1int % n].id_spec());
    let sw = switched_queue(scan, now);
    assert(woken(scan[0], now) == scan[0]);
    assert(sw =~= seq![run(scan[0])] + scan.subrange(1, n));
    assert forall|m: int| 0 <= m < n implies queue_ids(sw)[m] == rotl(queue_ids(q0))[m] by {
        if m == 0 {
            assert(sw[0] == run(scan[0]));
        } else {
            assert(sw[m] == scan[m]);
            if m < n - 1 {
                assert(scan[m] == q0[m + 1]);
            }
        }
    }
    assert(queue_ids(sw) =~= rotl(queue_ids(q0)));
}

/// Law: a blocked switch loses nothing. After a switch that found nothing
/// to run — which saves the departing front process in place — retrying the
/// same switch scans exactly the processes the first attempt scanned, so
/// the caller may halt the core and call `switch` again with the same state
/// and a fresh time, as if the first call had simply waited.
pub proof fn lemma_blocked_switch_retries(q0: Seq<Process>, new_state: State, tf0: TrapFrame)
    requires
        q0.len() > 0,
    ensures
        scan_seq(q0.update(0, saved_process(tf0, new_state)), new_state, tf0) == scan_seq(
            q0,
            new_state,
            tf0,
        ),
{
    assert(scan_seq(q0.update(0, saved_process(tf0, new_state)), new_state, tf0) =~= scan_seq(
        q0,
        new_state,
        tf0,
    ));
}

/// Law: processes never terminate. A successful switch neither adds nor
/// removes processes, and it leaves exactly one process `Running`: the new
/// front, the one switched to. So once scheduling has started the queue is
/// never empty and exactly one process runs.
pub proof fn lemma_switch_keeps_population(q0: Seq<Process>, new_state: State, tf0: TrapFrame, now: u64)
    requires
        q0.len() > 0,
        !(new_state is Running),
        running_only_at_front(q0),
        first_ready(scan_seq(q0, new_state, tf0), now) >= 0,
    ensures
        ({
            let sw = switched_queue(scan_seq(q0, new_state, tf0), now);
            &&& sw.len() == q0.len()
            &&& sw[0].state is Running
            &&& running_only_at_front(sw)
        }),
{
    let scan = scan_seq(q0, new_state, tf0);
    lemma_first_ready(scan, now);
    lemma_switched_shape(scan, now);
    let j = first_ready(scan, now);
    let sw = switched_queue(scan, now);
    assert forall|k: int| 0 <= k < scan.len() implies !((#[trigger] scan[k]).state is Running) by {
        if k < scan.len() - 1 {
            assert(scan[k] == q0[k + 1]);
        } else {
            assert(scan[k] == saved_process(tf0, new_state));
        }
    }
    assert forall|m: int| 0 < m < sw.len() implies !((#[trigger] sw[m]).state is Running) by {
        if m <= scan.len() - 1 - j {
            assert(sw[m] == scan[m + j]);
        } else {
            assert(sw[m] == scan[m + j - scan.len()]);
        }
    }
}

/// Law: a waiting process whose wake condition is not yet due at `now` is
/// never the one switched to, and it survives the switch unchanged — still
/// waiting — at a predictable position in the queue.
pub proof fn lemma_undue_sleeper_kept(scan: Seq<Process>, now: u64, i: int)
    requires
        0 <= i < scan.len(),
        scan[i].state matches State::Waiting(w) && now < w.until,
    ensures
        first_ready(scan, now) != i,
        ({
            let j = first_ready(scan, now);
            let sw = switched_queue(scan, now);
            &&& (j > i ==> sw[i + scan.len() - j] == scan[i])
            &&& (0 <= j < i ==> sw[i - j] == scan[i])
        }),
{
    lemma_first_ready(scan, now);
    assert(!ready_at(scan[i], now));
    let j = first_ready(scan, now);
    if j >= 0 {
        lemma_switched_shape(scan, now);
    }
}

/// Law: a waiting process becomes current exactly on the first switch at
/// which its wake condition is due and nothing ahead of it in scan order
/// can run: it is woken — the results of its blocked call committed to its
/// own frame — made `Running`, placed at the front, and its identity is the
/// one returned.
pub proof fn lemma_due_sleeper_selected(scan: Seq<Process>, now: u64, i: int)
    requires
        0 <= i < scan.len(),
        scan[i].state matches State::Waiting(w) && now >= w.until,
        forall|k: int| 0 <= k < i ==> !ready_at(#[trigger] scan[k], now),
    ensures
        first_ready(scan, now) == i,
        switched_queue(scan, now)[0] == run(woken(scan[i], now)),
        switched_queue(scan, now)[0].state is Running,
        switched_queue(scan, now)[0].id_spec() == scan[i].id_spec(),
{
    lemma_first_ready(scan, now);
    assert(ready_at(scan[i], now));
    lemma_switched_shape(scan, now);
}

} // verus!

use kernel::interrupt::Interrupt;
use kernel::process::State;
use kernel::scheduler::{GlobalScheduler, TICK};
use kernel::syscall::handle_syscall;
use kernel::trap_frame::TrapFrame;
use kernel::traps::{handle_exception, handle_irq, Action, Info, Kind, Source};

const SHELL_ENTRY: u64 = 0xA000;
const SHELL_STACK: u64 = 0x1000;
const BEAT_ENTRY: u64 = 0xB000;
const BEAT_STACK: u64 = 0x2000;

fn started() -> (GlobalScheduler, TrapFrame) {
    let mut gs = GlobalScheduler::uninitialized();
    let tf = gs.start(SHELL_ENTRY, SHELL_STACK, BEAT_ENTRY, BEAT_STACK);
    (gs, tf)
}

fn sync_info() -> Info {
    Info { source: Source::LowerAArch64, kind: Kind::Synchronous }
}

fn irq_info() -> Info {
    Info { source: Source::LowerAArch64, kind: Kind::Irq }
}

#[test]
fn timer_irq_preempts_and_rearms() {
    let (mut gs, mut tf) = started();
    let act = handle_irq(Interrupt::Timer1, 100, &mut gs, &mut tf);
    assert_eq!(act, Action::ArmTimer(TICK));
    // The shell was preempted; the heartbeat's frame is live now.
    assert_eq!(gs.current(), Some(1));
    assert_eq!(tf.tpidr, 1);
    assert_eq!(tf.pc, BEAT_ENTRY);
}

#[test]
fn non_timer_irq_is_fatal() {
    let (mut gs, mut tf) = started();
    let before = tf;
    let act = handle_irq(Interrupt::Uart, 100, &mut gs, &mut tf);
    assert_eq!(act, Action::HaltUnhandled(Interrupt::Uart));
    assert_eq!(tf, before);
    assert_eq!(gs.current(), Some(0));
}

#[test]
fn breakpoint_steps_past_and_enters_debug_shell() {
    let (mut gs, mut tf) = started();
    let esr = 0b111000u32 << 26;
    let pending = Vec::new();
    let act = handle_exception(sync_info(), esr, &pending, 50, &mut gs, &mut tf);
    assert_eq!(act, Action::DebugShell);
    assert_eq!(tf.pc, SHELL_ENTRY + 4);
    assert_eq!(gs.current(), Some(0));
}

#[test]
fn unknown_syscall_leaves_caller_running_with_error_status() {
    // Dispatching syscall number 255 leaves the caller Running and sets its
    // status register to a nonzero value.
    let (mut gs, mut tf) = started();
    // Make the shell the running process first.
    let act = handle_irq(Interrupt::Timer1, 0, &mut gs, &mut tf);
    assert_eq!(act, Action::ArmTimer(TICK));
    assert_eq!(gs.current(), Some(1));
    assert_eq!(gs.state_at(0), State::Running);

    let act = handle_syscall(255, 10, &mut gs, &mut tf);
    assert_eq!(act, Action::Proceed);
    assert_ne!(tf.x7, 0);
    assert_eq!(tf.x7, 1);
    // No switch happened: the caller is still current and still Running.
    assert_eq!(gs.current(), Some(1));
    assert_eq!(gs.state_at(0), State::Running);
    assert_eq!(gs.len(), 2);
}

#[test]
fn undefined_syscall_through_dispatcher() {
    let (mut gs, mut tf) = started();
    let esr = (0b010001u32 << 26) | 255;
    let pending = Vec::new();
    let act = handle_exception(sync_info(), esr, &pending, 50, &mut gs, &mut tf);
    assert_eq!(act, Action::Proceed);
    assert_eq!(tf.x7, 1);
    assert_eq!(gs.current(), Some(0));
}

#[test]
fn sleep_syscall_blocks_caller_until_due() {
    // The shell sleeps for 5 ms at time 1000; the heartbeat runs meanwhile;
    // the shell stays waiting through every scan before time 6000 and
    // becomes current exactly on the first switch at or after it.
    let (mut gs, mut tf) = started();
    tf.x0 = 5;
    let esr = (0b010001u32 << 26) | 1;
    let pending = Vec::new();
    let act = handle_exception(sync_info(), esr, &pending, 1000, &mut gs, &mut tf);
    assert_eq!(act, Action::Proceed);
    // The heartbeat took over.
    assert_eq!(gs.current(), Some(1));
    assert_eq!(tf.tpidr, 1);

    // Timer ticks before the deadline keep the heartbeat current.
    for now in [2000u64, 3000, 4000, 5999] {
        let act = handle_irq(Interrupt::Timer1, now, &mut gs, &mut tf);
        assert_eq!(act, Action::ArmTimer(TICK));
        assert_eq!(gs.current(), Some(1));
        assert_eq!(tf.tpidr, 1);
    }

    // The first tick at the deadline wakes the shell: elapsed time and a
    // success status stand in its own return registers.
    let act = handle_irq(Interrupt::Timer1, 6000, &mut gs, &mut tf);
    assert_eq!(act, Action::ArmTimer(TICK));
    assert_eq!(gs.current(), Some(0));
    assert_eq!(tf.tpidr, 0);
    assert_eq!(tf.x0, 5);
    assert_eq!(tf.x7, 0);
}

#[test]
fn sleep_reports_at_least_the_requested_time() {
    let (mut gs, mut tf) = started();
    tf.x0 = 5;
    let act = handle_syscall(1, 1000, &mut gs, &mut tf);
    assert_eq!(act, Action::Proceed);
    // The wake tick comes late: the reported elapsed time exceeds 5 ms.
    let _ = handle_irq(Interrupt::Timer1, 8700, &mut gs, &mut tf);
    assert_eq!(gs.current(), Some(0));
    assert_eq!(tf.x0, 7);
    assert!(tf.x0 >= 5);
    assert_eq!(tf.x7, 0);
}

#[test]
fn sleep_with_nothing_else_to_run_blocks_then_retries() {
    // A lone process that sleeps leaves the core nothing to run: the switch
    // reports Block, and retrying it once time has advanced wakes the
    // sleeper.
    let mut gs = GlobalScheduler::uninitialized();
    let _ = gs.start(SHELL_ENTRY, SHELL_STACK, BEAT_ENTRY, BEAT_STACK);
    // Put the heartbeat to sleep far out first so only the shell can run,
    // then have the shell sleep too.
    let mut tf = TrapFrame::zeroed();
    tf.tpidr = 0;
    tf.x0 = 3;
    let act = handle_syscall(1, 0, &mut gs, &mut tf);
    // The heartbeat is ready, so the shell's sleep switches to it.
    assert_eq!(act, Action::Proceed);
    assert_eq!(tf.tpidr, 1);
    tf.x0 = 2;
    let act = handle_syscall(1, 1000, &mut gs, &mut tf);
    let blocked_state = match act {
        Action::Block(st) => st,
        other => panic!("expected Block, got {:?}", other),
    };
    match blocked_state {
        State::Waiting(w) => {
            assert_eq!(w.start, 1000);
            assert_eq!(w.until, 3000);
        }
        other => panic!("expected Waiting, got {:?}", other),
    }
    // Still nothing to run at 2500.
    assert_eq!(gs.switch(blocked_state, 2500, &mut tf), None);
    // At 3000 the shell's own deadline is due: it resumes first.
    let woken = gs.switch(blocked_state, 3000, &mut tf);
    assert_eq!(woken, Some(0));
    assert_eq!(tf.tpidr, 0);
    assert_eq!(tf.x0, 3);
    assert_eq!(tf.x7, 0);
}

#[test]
fn zero_sleep_wakes_immediately() {
    let (mut gs, mut tf) = started();
    tf.x0 = 0;
    let act = handle_syscall(1, 500, &mut gs, &mut tf);
    assert_eq!(act, Action::Proceed);
    // The heartbeat is ahead of the freshly-due shell in scan order.
    assert_eq!(gs.current(), Some(1));
    let _ = handle_irq(Interrupt::Timer1, 500, &mut gs, &mut tf);
    assert_eq!(gs.current(), Some(0));
    assert_eq!(tf.x0, 0);
    assert_eq!(tf.x7, 0);
}

#[test]
fn irq_dispatch_with_no_pending_lines_proceeds() {
    let (mut gs, mut tf) = started();
    let before = tf;
    let pending = Vec::new();
    let act = handle_exception(irq_info(), 0, &pending, 10, &mut gs, &mut tf);
    assert_eq!(act, Action::Proceed);
    assert_eq!(tf, before);
}

#[test]
fn irq_dispatch_timer_line() {
    let (mut gs, mut tf) = started();
    let pending = vec![Interrupt::Timer1];
    let act = handle_exception(irq_info(), 0, &pending, 10, &mut gs, &mut tf);
    assert_eq!(act, Action::ArmTimer(TICK));
    assert_eq!(gs.current(), Some(1));
}

#[test]
fn irq_dispatch_unhandled_line_is_fatal() {
    let (mut gs, mut tf) = started();
    let pending = vec![Interrupt::Gpio2];
    let act = handle_exception(irq_info(), 0, &pending, 10, &mut gs, &mut tf);
    assert_eq!(act, Action::HaltUnhandled(Interrupt::Gpio2));
    assert_eq!(gs.current(), Some(0));
}

#[test]
fn irq_dispatch_second_pending_line_is_fatal_after_timer() {
    let (mut gs, mut tf) = started();
    let pending = vec![Interrupt::Timer1, Interrupt::Uart];
    let act = handle_exception(irq_info(), 0, &pending, 10, &mut gs, &mut tf);
    assert_eq!(act, Action::HaltUnhandled(Interrupt::Uart));
    // The timer line was handled first: the switch did happen.
    assert_eq!(gs.current(), Some(1));
}

#[test]
fn other_synchronous_causes_resume_unchanged() {
    let (mut gs, mut tf) = started();
    let before = tf;
    // A data abort: diagnostic only at this layer.
    let esr = 0b100100u32 << 26;
    let pending = Vec::new();
    let act = handle_exception(sync_info(), esr, &pending, 10, &mut gs, &mut tf);
    assert_eq!(act, Action::Proceed);
    assert_eq!(tf, before);
    assert_eq!(gs.current(), Some(0));
}

#[test]
fn fiq_and_serror_resume_unchanged() {
    let (mut gs, mut tf) = started();
    let before = tf;
    let pending = Vec::new();
    for kind in [Kind::Fiq, Kind::SError] {
        let info = Info { source: Source::CurrentSpElx, kind };
        let act = handle_exception(info, 0, &pending, 10, &mut gs, &mut tf);
        assert_eq!(act, Action::Proceed);
        assert_eq!(tf, before);
    }
}

#[test]
fn vector_codes_decode_to_kind_and_source() {
    assert_eq!(Kind::from_code(0), Some(Kind::Synchronous));
    assert_eq!(Kind::from_code(1), Some(Kind::Irq));
    assert_eq!(Kind::from_code(2), Some(Kind::Fiq));
    assert_eq!(Kind::from_code(3), Some(Kind::SError));
    assert_eq!(Kind::from_code(4), None);
    assert_eq!(Source::from_code(0), Some(Source::CurrentSpEl0));
    assert_eq!(Source::from_code(1), Some(Source::CurrentSpElx));
    assert_eq!(Source::from_code(2), Some(Source::LowerAArch64));
    assert_eq!(Source::from_code(3), Some(Source::LowerAArch32));
    assert_eq!(Source::from_code(9), None);
}

#[test]
fn interrupt_lines_and_register_masks() {
    assert_eq!(Interrupt::Timer1.line(), 1);
    assert_eq!(Interrupt::Uart.line(), 57);
    assert_eq!(Interrupt::Timer1.bank_and_mask(), (0, 1 << 1));
    assert_eq!(Interrupt::Usb.bank_and_mask(), (0, 1 << 9));
    assert_eq!(Interrupt::Gpio0.bank_and_mask(), (1, 1 << 17));
    assert_eq!(Interrupt::Uart.bank_and_mask(), (1, 1 << 25));
}

use kernel::process::{Process, SleepWait, State};
use kernel::trap_frame::TrapFrame;
use kernel::util::{align_down, align_up, log2, log2_up, power_of_two_check};

#[test]
fn align_down_to_powers_of_two() {
    assert_eq!(align_down(0, 1), 0);
    assert_eq!(align_down(13, 1), 13);
    assert_eq!(align_down(13, 8), 8);
    assert_eq!(align_down(16, 8), 16);
    assert_eq!(align_down(4097, 4096), 4096);
    assert_eq!(align_down(4095, 4096), 0);
}

#[test]
fn align_up_to_powers_of_two() {
    assert_eq!(align_up(0, 1), 0);
    assert_eq!(align_up(13, 1), 13);
    assert_eq!(align_up(13, 8), 16);
    assert_eq!(align_up(16, 8), 16);
    assert_eq!(align_up(4095, 4096), 4096);
    assert_eq!(align_up(4097, 4096), 8192);
}

#[test]
fn log2_is_the_floor_logarithm() {
    assert_eq!(log2(1), 0);
    assert_eq!(log2(2), 1);
    assert_eq!(log2(3), 1);
    assert_eq!(log2(8), 3);
    assert_eq!(log2(9), 3);
    assert_eq!(log2(1023), 9);
    assert_eq!(log2(1024), 10);
    assert_eq!(log2(usize::MAX), usize::BITS as usize - 1);
}

#[test]
fn log2_up_is_the_ceiling_logarithm() {
    assert_eq!(log2_up(1), 0);
    assert_eq!(log2_up(2), 1);
    assert_eq!(log2_up(3), 2);
    assert_eq!(log2_up(8), 3);
    assert_eq!(log2_up(9), 4);
    assert_eq!(log2_up(1024), 10);
    assert_eq!(log2_up(1025), 11);
}

#[test]
fn power_of_two_check_matches_the_usual_notion() {
    assert!(!power_of_two_check(0));
    assert!(power_of_two_check(1));
    assert!(power_of_two_check(2));
    assert!(!power_of_two_check(3));
    assert!(power_of_two_check(4096));
    assert!(!power_of_two_check(4097));
    assert!(!power_of_two_check(usize::MAX));
}

#[test]
fn fresh_process_has_a_zeroed_frame_on_its_stack() {
    let p = Process::new(0x4000);
    assert_eq!(p.trap_frame.sp, 0x4000);
    assert_eq!(p.trap_frame.pc, 0);
    assert_eq!(p.trap_frame.tpidr, 0);
    assert!(p.is_ready());
    assert_eq!(p.id(), 0);
}

#[test]
fn init_seeds_the_entry_point_and_marks_ready() {
    let mut p = Process::new(0x4000);
    p.init(0xCAFE0);
    assert_eq!(p.trap_frame.pc, 0xCAFE0);
    assert_eq!(p.trap_frame.sp, 0x4000);
    assert_eq!(p.trap_frame.x0, 0);
    assert_eq!(p.trap_frame.x7, 0);
    assert_eq!(p.state, State::Ready);
}

#[test]
fn zeroed_frame_is_all_zero() {
    let tf = TrapFrame::zeroed();
    assert_eq!(tf, TrapFrame { pc: 0, pstate: 0, sp: 0, tpidr: 0, x0: 0, x7: 0 });
}

#[test]
fn try_wake_wakes_only_when_due() {
    let mut p = Process::new(0x4000);
    p.state = State::Waiting(SleepWait { start: 100, until: 2100 });
    assert!(!p.try_wake(100));
    assert!(!p.try_wake(2099));
    assert!(matches!(p.state, State::Waiting(_)));
    assert!(p.try_wake(2100));
    assert_eq!(p.state, State::Ready);
    assert_eq!(p.trap_frame.x0, 2);
    assert_eq!(p.trap_frame.x7, 0);
}

#[test]
fn running_process_is_not_ready() {
    let mut p = Process::new(0x4000);
    p.state = State::Running;
    assert!(!p.is_ready());
    assert!(!p.try_wake(u64::MAX));
    assert_eq!(p.state, State::Running);
}

#[test]
fn alignment_at_the_top_of_the_address_space() {
    assert_eq!(align_down(usize::MAX, 4096), usize::MAX - 4095);
    assert_eq!(align_up(usize::MAX, 1), usize::MAX);
    assert_eq!(align_up(usize::MAX - 4095, 4096), usize::MAX - 4095);
}

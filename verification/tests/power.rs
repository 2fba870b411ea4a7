use trackpad_core::power::{PollCadence, PowerState, Scheduler, TimerCmd, SLEEP_AFTER_SECS};

const HZ: u64 = 1_000_000;

#[test]
fn boot_state_is_asleep_and_unarmed() {
    let s = Scheduler::new();
    assert_eq!(s.state, PowerState::Sleep);
    assert!(!s.waiting_for_sleep);
    assert_eq!(s.cadence(), PollCadence::Coarse);
    assert_eq!(SLEEP_AFTER_SECS, 4);
}

#[test]
fn one_sample_wakes_and_resets_the_wait() {
    let mut s = Scheduler::new();
    let cmd = s.on_tick(true, 0, HZ);
    assert_eq!(s.state, PowerState::Active);
    assert!(!s.waiting_for_sleep);
    assert_eq!(cmd, TimerCmd::Keep);
    assert_eq!(s.cadence(), PollCadence::Tight);
}

#[test]
fn first_idle_tick_arms_the_timer() {
    let mut s = Scheduler::new();
    s.on_tick(true, 0, HZ);
    let cmd = s.on_tick(false, 0, HZ);
    assert_eq!(cmd, TimerCmd::Arm);
    assert_eq!(s.state, PowerState::Active);
    assert!(s.waiting_for_sleep);
}

#[test]
fn stays_active_through_the_idle_window() {
    let mut s = Scheduler::new();
    s.on_tick(true, 0, HZ);
    s.on_tick(false, 0, HZ);
    // three seconds idle: nowhere near the window's end
    let cmd = s.on_tick(false, 3 * HZ, HZ);
    assert_eq!(cmd, TimerCmd::Keep);
    assert_eq!(s.state, PowerState::Active);
    // exactly four whole seconds: still awake, the bound is strict
    let cmd = s.on_tick(false, 4 * HZ + HZ - 1, HZ);
    assert_eq!(cmd, TimerCmd::Keep);
    assert_eq!(s.state, PowerState::Active);
}

#[test]
fn sleeps_just_past_the_idle_window() {
    let mut s = Scheduler::new();
    s.on_tick(true, 0, HZ);
    s.on_tick(false, 0, HZ);
    let cmd = s.on_tick(false, 5 * HZ, HZ);
    assert_eq!(cmd, TimerCmd::Stop);
    assert_eq!(s.state, PowerState::Sleep);
    assert_eq!(s.cadence(), PollCadence::Coarse);
}

#[test]
fn sample_mid_wait_resets_the_clock() {
    let mut s = Scheduler::new();
    s.on_tick(true, 0, HZ);
    s.on_tick(false, 0, HZ);
    // a touch at second three of the idle window
    let cmd = s.on_tick(true, 3 * HZ, HZ);
    assert_eq!(cmd, TimerCmd::Keep);
    assert_eq!(s.state, PowerState::Active);
    assert!(!s.waiting_for_sleep);
    // the next idle tick starts the count over from zero
    let cmd = s.on_tick(false, 0, HZ);
    assert_eq!(cmd, TimerCmd::Arm);
    assert_eq!(s.state, PowerState::Active);
}

#[test]
fn idle_while_asleep_changes_nothing() {
    let mut s = Scheduler::new();
    let cmd = s.on_tick(false, 100 * HZ, HZ);
    assert_eq!(cmd, TimerCmd::Keep);
    assert_eq!(s.state, PowerState::Sleep);
    assert!(!s.waiting_for_sleep);
}

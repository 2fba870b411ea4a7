use trackpad_core::pipeline::{Pipeline, RawSample};
use trackpad_core::power::{PollCadence, PowerState, TimerCmd};

const HZ: u64 = 1_000_000;

#[test]
fn end_to_end_sample_to_wire_bytes() {
    // speed 20 sits in [15, 40) at fraction 0.2: factor 2.0, so the
    // x delta 20 scales to 40 = 0x28
    let mut p = Pipeline::new();
    let sample = RawSample { x_delta: 20, y_delta: 0, primary_pressed: true, secondary_pressed: false };
    let out = p.tick(Some(sample), 0, HZ);
    let report = out.report.expect("a sample must yield a report");
    assert_eq!(report.to_bytes(), vec![0x01, 0x28, 0x00, 0x00]);
    assert_eq!(p.scheduler.state, PowerState::Active);
    assert_eq!(out.timer_cmd, TimerCmd::Keep);
    assert_eq!(out.cadence, PollCadence::Tight);
}

#[test]
fn idle_tick_yields_no_report() {
    let mut p = Pipeline::new();
    let out = p.tick(None, 0, HZ);
    assert!(out.report.is_none());
    assert_eq!(p.scheduler.state, PowerState::Sleep);
    assert_eq!(out.cadence, PollCadence::Coarse);
}

#[test]
fn identical_samples_encode_identically() {
    let mut p = Pipeline::new();
    let sample = RawSample { x_delta: 17, y_delta: -9, primary_pressed: false, secondary_pressed: true };
    let mut images: Vec<Vec<u8>> = Vec::new();
    for _ in 0..5 {
        let out = p.tick(Some(sample), 0, HZ);
        images.push(out.report.expect("a sample must yield a report").to_bytes());
    }
    assert_eq!(images.len(), 5);
    for image in &images {
        assert_eq!(image, &images[0]);
    }
}

#[test]
fn a_session_wakes_works_and_dozes_off() {
    let mut p = Pipeline::new();
    let sample = RawSample { x_delta: 3, y_delta: 4, primary_pressed: false, secondary_pressed: false };

    // motion wakes the device
    let out = p.tick(Some(sample), 0, HZ);
    assert!(out.report.is_some());
    assert_eq!(out.cadence, PollCadence::Tight);

    // the first idle tick arms the inactivity timer
    let out = p.tick(None, 0, HZ);
    assert_eq!(out.timer_cmd, TimerCmd::Arm);
    assert_eq!(out.cadence, PollCadence::Tight);

    // four whole seconds later the device is still awake
    let out = p.tick(None, 4 * HZ, HZ);
    assert_eq!(out.timer_cmd, TimerCmd::Keep);
    assert_eq!(p.scheduler.state, PowerState::Active);

    // strictly past the window it stops the timer and dozes off
    let out = p.tick(None, 5 * HZ, HZ);
    assert_eq!(out.timer_cmd, TimerCmd::Stop);
    assert_eq!(p.scheduler.state, PowerState::Sleep);
    assert_eq!(out.cadence, PollCadence::Coarse);
}

#[test]
fn buttons_travel_through_the_pipeline() {
    let mut p = Pipeline::new();
    let sample = RawSample { x_delta: 0, y_delta: 0, primary_pressed: true, secondary_pressed: true };
    let out = p.tick(Some(sample), 0, HZ);
    let report = out.report.expect("a sample must yield a report");
    assert_eq!(report.buttons, 0b0000_0011);
    assert_eq!(report.x, 0);
    assert_eq!(report.y, 0);
    assert_eq!(report.wheel, 0);
}

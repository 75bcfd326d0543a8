use rusty_wheels::rotation::{RotationTracker, STOP_TIME_MS};
use rusty_wheels::schedule::StoppedMode;
use rusty_wheels::wheel::{FrameAction, WheelState};

#[test]
fn pulses_one_second_apart_sampled_half_a_rotation_later() {
    let mut tr = RotationTracker::new();
    tr.pulse(0);
    tr.pulse(1000);
    let f = tr.frame(1500, 7);
    assert_eq!(f.spin_length, 1000);
    // 500 ms into a 1000 ms rotation: half a rotation, in thousandths.
    assert_eq!(f.spin_pos, 500);
    assert_eq!(f.loop_counter, 7);
    assert_eq!(f.now, 1500);
    assert!(!tr.is_stopped(1500));
    // decelerating: past a full rotation
    assert_eq!(tr.spin_pos(2500), 1500);
}

#[test]
fn no_second_pulse_means_zero_length_and_stopped() {
    let tr = RotationTracker::new();
    assert_eq!(tr.spin_length(), 0);
    assert!(tr.is_stopped(0));
    assert!(tr.is_stopped(1000));
    assert!(tr.is_stopped(3000));
    let mut one = RotationTracker::new();
    one.pulse(100);
    assert_eq!(one.spin_length(), 0);
    assert!(one.is_stopped(100));
    assert!(one.is_stopped(1500));
    assert!(one.is_stopped(100 + STOP_TIME_MS + 1));
    assert_eq!(one.frame(1500, 0).spin_length, 0);
    // the second pulse gives the first rotation length
    one.pulse(900);
    assert_eq!(one.spin_length(), 800);
    assert!(!one.is_stopped(1500));
}

#[test]
fn first_pulse_gives_large_spin_pos() {
    let mut tr = RotationTracker::new();
    tr.pulse(0);
    // rotation length zero, floored at one millisecond
    assert_eq!(tr.spin_pos(1500), 1_500_000);
}

#[test]
fn spin_pos_saturates() {
    let mut tr = RotationTracker::new();
    tr.pulse(0);
    assert_eq!(tr.spin_pos(u64::MAX), u64::MAX);
}

#[test]
fn mode_duration_threshold_is_strict() {
    let mut tr = RotationTracker::new();
    tr.pulse(1000);
    tr.pulse(2000);
    assert_eq!(tr.mode_duration(2500), 1000);
    assert!(!tr.is_stopped(4000));
    assert_eq!(tr.mode_duration(4000), 2000);
    assert!(tr.is_stopped(4001));
}

#[test]
fn live_while_pulsing_then_stopped_after_two_seconds_of_silence() {
    let mut st = WheelState::new(10, false);
    let mut now: u64 = 0;
    let mut switches = 0;
    // pulses every 500 ms for 5 s, frames every 10 ms
    while now <= 5000 {
        let pulse = now % 500 == 0;
        let (_f, action) = st.advance(now, pulse, false);
        if now < 500 {
            assert!(matches!(action, FrameAction::Stopped(_)), "live at {now}");
        } else {
            match action {
                FrameAction::Live(Some(_)) => switches += 1,
                FrameAction::Live(None) => {}
                FrameAction::Stopped(_) => panic!("stopped at {now}"),
            }
        }
        now += 10;
    }
    // the second pulse, at 500 ms, makes the wheel live and brings the first mode
    assert_eq!(switches, 1);
    // silence: last pulse at 5000
    let mut first_stopped = None;
    while now <= 8000 {
        let (_f, action) = st.advance(now, false, false);
        if let FrameAction::Stopped(m) = action {
            assert_eq!(m, StoppedMode::StoppedCaution);
            if first_stopped.is_none() {
                first_stopped = Some(now);
            }
        } else {
            assert!(first_stopped.is_none(), "live again at {now}");
            assert!(now - 5000 <= 2000);
        }
        now += 10;
    }
    assert_eq!(first_stopped, Some(7010));
}

#[test]
fn first_live_frame_switches_mode_then_every_twenty_seconds() {
    let mut st = WheelState::new(6, false);
    let mut now: u64 = 0;
    let mut switch_times = Vec::new();
    while now < 60_000 {
        let pulse = now % 500 == 0;
        let (_f, action) = st.advance(now, pulse, false);
        if let FrameAction::Live(Some(m)) = action {
            assert!(m < 6);
            switch_times.push(now);
        }
        now += 100;
    }
    assert_eq!(switch_times, vec![500, 20_500, 40_500]);
}

#[test]
fn forced_mode_never_stops_or_switches() {
    let mut st = WheelState::new(6, true);
    for t in 0..100u64 {
        let (_f, action) = st.advance(t * 100, false, false);
        assert_eq!(action, FrameAction::Live(None));
    }
}

#[test]
fn button_cycles_stopped_families_and_counter_counts() {
    let mut st = WheelState::new(3, false);
    let (f0, a0) = st.advance(0, false, true);
    assert_eq!(f0.loop_counter, 0);
    assert_eq!(a0, FrameAction::Stopped(StoppedMode::StoppedWhite));
    let (f1, a1) = st.advance(10, false, true);
    assert_eq!(f1.loop_counter, 1);
    assert_eq!(a1, FrameAction::Stopped(StoppedMode::StoppedChill));
    assert_eq!(st.floodlight, StoppedMode::StoppedChill);
    let (_f2, a2) = st.advance(3000, false, true);
    assert_eq!(a2, FrameAction::Stopped(StoppedMode::StoppedCaution));
}

#[test]
fn loop_counter_wraps() {
    let mut st = WheelState::new(3, false);
    st.loop_counter = u32::MAX;
    let (f, _a) = st.advance(0, false, false);
    assert_eq!(f.loop_counter, u32::MAX);
    assert_eq!(st.loop_counter, 0);
}

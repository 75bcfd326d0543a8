use rusty_wheels::buttons::Debounce;
use rusty_wheels::cellblobs::{create_cellblobs, CellBlobs};
use rusty_wheels::leds::{Side, WheelLEDs};
use rusty_wheels::modes::Mode;
use rusty_wheels::rotation::FrameState;
use rusty_wheels::speckles::{
    create_hub_rainbow, hub_flame, render_hub_white, render_mod_speckle, render_speckle_at,
    render_speckle_onepix, render_speckle_random, HubRainbow,
};
use rusty_wheels::tracker_modes::{EdgeStrobe, LineTracker, Stepper, TrackTarget};
use rusty_wheels::walks::{fst, snd, FloatSpray, ForkLightning, Lightning, RainbowOnOff};

fn frame(now: u64, spin_pos: u64, spin_length: u64, loop_counter: u32) -> FrameState {
    FrameState {
        now,
        loop_counter,
        spin_pos,
        spin_length,
    }
}

#[test]
fn debounce_counts_presses_a_second_apart() {
    let mut d = Debounce::new(0);
    assert!(!d.pulsed(500, true));
    assert!(!d.pulsed(1000, true));
    assert!(d.pulsed(1001, true));
    assert_eq!(d.debounce_start, 1001);
    assert!(!d.pulsed(1500, true));
    assert!(!d.pulsed(5000, false));
    assert!(d.pulsed(5000, true));
}

#[test]
fn edge_strobe_flashes_on_new_rotation() {
    let mut s = EdgeStrobe::new();
    let mut leds = WheelLEDs::new(4);
    s.render(Side::Left, &mut leds, &frame(0, 900, 1000, 0));
    assert_eq!(leds.get(Side::Left, 0), (0, 0, 0));
    Mode::step(&mut s, &frame(0, 900, 1000, 0));
    s.render(Side::Left, &mut leds, &frame(0, 10, 1000, 0));
    for i in 0..4 {
        assert_eq!(leds.get(Side::Left, i), (255, 64, 0));
        assert_eq!(leds.get(Side::Right, i), (0, 0, 0));
    }
}

#[test]
fn stepper_moves_out_once_per_rotation_and_wraps() {
    let mut s = Stepper::new(3);
    s.step_frame(&frame(0, 500, 1000, 0));
    assert_eq!(s.radius, 0);
    s.step_frame(&frame(0, 100, 1000, 0));
    assert_eq!(s.radius, 1);
    s.step_frame(&frame(0, 50, 1000, 0));
    assert_eq!(s.radius, 2);
    s.step_frame(&frame(0, 10, 1000, 0));
    assert_eq!(s.radius, 0);
    let mut leds = WheelLEDs::new(3);
    s.render_side(Side::Right, &mut leds);
    assert_eq!(leds.get(Side::Right, 0), (255, 128, 0));
    assert_eq!(leds.get(Side::Right, 1), (0, 0, 0));
}

#[test]
fn line_tracker_chases_target_one_pixel_per_frame() {
    let mut t = LineTracker::new(23, TrackTarget::SpiralOut);
    assert_eq!(t.led, 11);
    assert_eq!(t.target_for(500), 11);
    assert_eq!(t.target_for(1000), 22);
    assert_eq!(t.target_for(2000), 22);
    t.step_frame(&frame(0, 1000, 1000, 0));
    assert_eq!(t.led, 12);
    t.step_frame(&frame(0, 0, 1000, 0));
    assert_eq!(t.led, 11);
    let f = LineTracker::new(23, TrackTarget::SquarewaveFlower);
    // phase (3 * 0.2) % 1 = 0.6 > 0.5: rim, held to the last pixel
    assert_eq!(f.target_for(200), 22);
    assert_eq!(f.target_for(100), 0);
    let q = LineTracker::new(23, TrackTarget::Squarewave);
    assert_eq!(q.target_for(100), 15);
    let mut leds = WheelLEDs::new(23);
    t.render_side(Side::Left, &mut leds);
    assert_eq!(leds.get(Side::Left, 11), (255, 8, 0));
    assert_eq!(leds.get(Side::Left, 12), (0, 0, 0));
}

#[test]
fn lightning_restarts_in_the_middle_with_a_new_hue() {
    let mut l = Lightning::new(5);
    assert_eq!(l.led, 2);
    l.step_with(1, 300);
    l.step_with(1, 300);
    assert_eq!((l.led, l.hue), (4, 0));
    l.step_with(1, 300);
    assert_eq!((l.led, l.hue), (2, 300));
    l.step_with(0, 700);
    assert_eq!((l.led, l.hue), (2, 300));
    l.step_with(2, 700);
    l.step_with(2, 700);
    l.step_with(2, 700);
    assert_eq!((l.led, l.hue), (2, 700));
    let mut leds = WheelLEDs::new(5);
    l.render_with(Side::Left, &mut leds, (1, 2, 3));
    assert_eq!(leds.get(Side::Left, 2), (1, 2, 3));
    assert_eq!(leds.get(Side::Left, 3), (0, 0, 0));
}

#[test]
fn float_spray_scrolls_inwards() {
    let mut s = FloatSpray::new(3);
    s.step_with(500);
    assert_eq!(s.leds, vec![0, 0, 500]);
    s.step_with(999);
    assert_eq!(s.leds, vec![0, 500, 999]);
    let mut leds = WheelLEDs::new(3);
    s.render(Side::Right, &mut leds);
    // 0.5 cubed * 255 = 31.875; 0.999 cubed * 255 = 254.24
    assert_eq!(leds.get(Side::Right, 1), (31, 0, 0));
    assert_eq!(leds.get(Side::Right, 2), (254, 0, 0));
    for _ in 0..10 {
        s.step(&frame(0, 0, 0, 0));
        assert!(s.leds.iter().all(|v| *v < 1000));
    }
}

#[test]
fn rainbow_on_off_borrows_the_hue_below() {
    let mut r = RainbowOnOff::new(3);
    r.step_with(0, 1, 250);
    assert_eq!(r.colours[0], (true, 250));
    r.step_with(1, 4, 900);
    assert_eq!(r.colours[1], (true, 250));
    r.step_with(0, 0, 0);
    assert_eq!(r.colours[0], (false, 0));
    r.step_with(1, 2, 900);
    assert_eq!(r.colours[1], (true, 900));
    assert!(fst((true, 5)));
    assert_eq!(snd((true, 5)), 5);
    let mut leds = WheelLEDs::new(3);
    r.render_with(Side::Left, &mut leds, &vec![(1, 1, 1), (2, 2, 2), (3, 3, 3)]);
    assert_eq!(leds.get(Side::Left, 0), (0, 0, 0));
    assert_eq!(leds.get(Side::Left, 1), (2, 2, 2));
}

#[test]
fn fork_lightning_moves_forks_and_restarts() {
    let mut f = ForkLightning::new(5);
    // nothing lit: restart in the middle
    f.step_with(&vec![0; 5], 400);
    assert_eq!(f.leds, vec![false, false, true, false, false]);
    assert_eq!(f.hue, 400);
    // fork from the middle
    f.step_with(&vec![0, 0, 310, 0, 0], 0);
    assert_eq!(f.leds, vec![false, true, false, true, false]);
    assert_eq!(f.hue, 400);
    // cell 1 moves out onto 2; cell 3 moves in onto 2
    f.step_with(&vec![0, 50, 0, 150, 0], 0);
    assert_eq!(f.leds, vec![false, false, true, false, false]);
    // stay
    f.step_with(&vec![0, 0, 250, 0, 0], 0);
    assert_eq!(f.leds, vec![false, false, true, false, false]);
    // at the rim a move out falls through to a move in
    let mut g = ForkLightning { leds: vec![false, false, true], hue: 1 };
    g.step_with(&vec![0, 0, 50], 0);
    assert_eq!(g.leds, vec![false, true, false]);
    // going out restarts
    g.step_with(&vec![0, 332, 0], 77);
    assert_eq!(g.leds, vec![false, true, false]);
    assert_eq!(g.hue, 77);
}

#[test]
fn cell_blobs_smooth_to_majority() {
    let b = CellBlobs::new(vec![true, true, false, true, true, false, false]);
    // round 1: inner cells take the majority of three, ends cleared
    // [F, T, T, T, T, F, F]; round 2 gives the same
    assert_eq!(b.smoothed(), vec![false, true, true, true, true, false, false]);
    let mut leds = WheelLEDs::new(7);
    b.render_side(Side::Left, &mut leds);
    assert_eq!(leds.get(Side::Left, 1), (255, 0, 0));
    assert_eq!(leds.get(Side::Left, 0), (0, 0, 0));
}

#[test]
fn cell_blobs_alternating_pattern_settles() {
    let b = CellBlobs::new(vec![false, true, false, true, false]);
    assert_eq!(b.smoothed(), vec![false; 5]);
}

#[test]
fn cell_blobs_flip_on_timer() {
    let mut b = create_cellblobs(4);
    assert_eq!(b.cells.len(), 4);
    let before = b.cells.clone();
    // 2560 ms rotation: flips at most every 10 ms
    b.step_with(&frame(10, 0, 2560, 0), 1);
    assert_eq!(b.cells, before);
    b.step_with(&frame(11, 0, 2560, 0), 1);
    assert_eq!(b.cells[1], !before[1]);
    assert_eq!(b.last_now, 11);
}

#[test]
fn mod_speckle_lights_rim_every_other_frame() {
    let mut side = vec![(9, 9, 9); 23];
    render_mod_speckle(&mut side, &frame(0, 0, 0, 2));
    // periods: pixel 22 -> 2, pixel 21 -> 3, pixel 0 -> 24
    assert_eq!(side[22], (255, 255, 0));
    assert_eq!(side[21], (0, 0, 0));
    assert_eq!(side[20], (0, 0, 0));
    assert_eq!(side[0], (0, 0, 0));
    render_mod_speckle(&mut side, &frame(0, 0, 0, 0));
    assert!(side.iter().all(|c| *c == (255, 255, 0)));
}

#[test]
fn onepix_speckle_lights_only_the_innermost() {
    let mut side = vec![(9, 9, 9); 23];
    render_speckle_onepix(&mut side, &frame(0, 0, 0, 0));
    assert_eq!(side[0], (255, 255, 0));
    assert!(side[1..].iter().all(|c| *c == (0, 0, 0)));
    render_speckle_onepix(&mut side, &frame(0, 0, 0, 6));
    // 6 is a multiple of the periods of pixels 22 (2), 21 (3) and 18 (6)
    assert_eq!(side[18], (255, 255, 0));
    assert_eq!(side[21], (0, 0, 0));
    assert_eq!(side[22], (0, 0, 0));
}

#[test]
fn random_speckles_light_one_pixel() {
    let mut side = vec![(9, 9, 9); 5];
    render_speckle_at(&mut side, 3, 1);
    assert_eq!(side, vec![(0, 0, 0), (0, 0, 0), (0, 0, 0), (0, 255, 0), (0, 0, 0)]);
    for _ in 0..20 {
        render_speckle_random(&mut side, &frame(0, 0, 0, 0));
        let lit: Vec<_> = side.iter().filter(|c| **c != (0, 0, 0)).collect();
        assert_eq!(lit.len(), 1);
    }
}

#[test]
fn hub_flames_stay_on_the_strip() {
    for _ in 0..50 {
        assert!(hub_flame(23) < 23);
        assert_eq!(hub_flame(1), 0);
    }
    let mut side = vec![(9, 9, 9); 23];
    render_hub_white(&mut side, &frame(0, 0, 0, 0));
    let lit: Vec<_> = side.iter().filter(|c| **c == (255, 255, 255)).collect();
    assert_eq!(lit.len(), 1);
    let h = HubRainbow { offset: 900 };
    assert_eq!(h.flame_hue(0, 23), 900);
    // 10 / 23 = 0.434..., plus 0.9, wrapped: 0.334
    assert_eq!(h.flame_hue(10, 23), 334);
    assert!(create_hub_rainbow().offset < 1000);
}

use rusty_wheels::cellular::{construct_cellular, CellularState, PRETTY_AUTOMATA};
use rusty_wheels::dither::{Dither, FRAME_LIMIT};
use rusty_wheels::jumble::Jumbler;
use rusty_wheels::leds::{Side, WheelLEDs};
use rusty_wheels::modes::Mode;
use rusty_wheels::rotation::FrameState;
use rusty_wheels::schedule::{stopped_routine, ModeScheduler, StoppedMode};
use rusty_wheels::stopped::{caution_modes, render_caution_mode, render_floodlight_mode, Caution};
use rusty_wheels::trails::{HueTrails, RandomWalkDot, Trails, DOT_COLOUR};

fn frame(now: u64, spin_pos: u64, spin_length: u64) -> FrameState {
    FrameState {
        now,
        loop_counter: 0,
        spin_pos,
        spin_length,
    }
}

#[test]
fn jumble_draws_from_first_half_and_requeues() {
    let mut j = Jumbler::from_order((0..6usize).collect());
    assert_eq!(j.next_at(1), 1);
    // 0 2 3 4 5 1
    assert_eq!(j.next_at(2), 3);
    // 0 2 4 5 1 3
    assert_eq!(j.next_at(0), 0);
    // 2 4 5 1 3 0
    assert_eq!(j.next_at(2), 5);
    assert_eq!(j.len(), 6);
}

#[test]
fn jumble_never_repeats_within_half_the_length() {
    let n = 10usize;
    let mut j = Jumbler::new((0..2 * n).collect());
    let mut drawn = Vec::new();
    for _ in 0..2000 {
        drawn.push(j.next().unwrap());
    }
    for w in drawn.windows(n) {
        for a in 0..n {
            for b in a + 1..n {
                assert_ne!(w[a], w[b]);
            }
        }
    }
}

#[test]
fn jumble_of_fewer_than_two_has_nothing_to_draw() {
    let mut j = Jumbler::new(vec![4u8]);
    assert_eq!(j.next(), None);
    let mut e: Jumbler<u8> = Jumbler::new(vec![]);
    assert_eq!(e.next(), None);
}

#[test]
fn jumbler_shuffles_but_keeps_entries() {
    let entries: Vec<usize> = (0..20).collect();
    let mut moved = false;
    for _ in 0..5 {
        let mut j = Jumbler::new(entries.clone());
        let mut seen = Vec::new();
        for _ in 0..20 {
            // draw from a large pool until each entry has surfaced once
            seen.push(j.next_at(0));
        }
        let mut sorted = seen.clone();
        sorted.sort();
        assert_eq!(sorted, entries);
        if seen != entries {
            moved = true;
        }
    }
    assert!(moved);
}

#[test]
fn scheduler_switches_once_per_period() {
    let mut s = ModeScheduler::new(8);
    let mut switches = Vec::new();
    let mut t = 0u64;
    while t <= 60_000 {
        if let Some(m) = s.live_frame(t) {
            assert!(m < 8);
            switches.push(t);
        }
        t += 250;
    }
    assert_eq!(switches, vec![0, 20_000, 40_000, 60_000]);
}

#[test]
fn stopped_mode_cycles_through_three_families() {
    let m = StoppedMode::StoppedCaution;
    assert_eq!(m.next(), StoppedMode::StoppedWhite);
    assert_eq!(m.next().next(), StoppedMode::StoppedChill);
    assert_eq!(m.next().next().next(), StoppedMode::StoppedCaution);
}

#[test]
fn stopped_routine_changes_every_minute() {
    assert_eq!(stopped_routine(0, 8), 0);
    assert_eq!(stopped_routine(59_999, 8), 0);
    assert_eq!(stopped_routine(60_000, 8), 1);
    assert_eq!(stopped_routine(8 * 60_000 + 5, 8), 0);
    assert_eq!(stopped_routine(3 * 60_000, 4), 3);
}

#[test]
fn dither_first_frame_values() {
    let mut d = Dither::new(4);
    // spin_pos 300: scaled 600, folded to 400
    d.pre_step(&frame(0, 300, 1000));
    // pixel 0: 400 -> level 500, error -100
    // fwd -43, lower -18, higher -6, mid -33
    // pixel 1: 400 - 43 = 357 -> 500, error -143
    // fwd -62, lower -26, higher -8, mid -47
    // pixel 2: 400 - 62 = 338 -> 500, error -162
    // fwd -70, lower -30, higher -10, mid -52
    // pixel 3: 400 - 70 = 330 -> 0, error 330
    // fwd 144, lower 61, higher 20, mid 105
    assert_eq!(d.rgb, vec![(63, 63, 0), (63, 63, 0), (63, 63, 0), (0, 0, 0)]);
    assert_eq!(d.next_errors, vec![-33 - 26, -47 - 30 - 6, -52 + 61 - 8, 105 - 10]);
    // conservation: in = out + next + lower(e0) + higher(e3) + row past the end
    let input: i64 = 4 * 400;
    let out: i64 = 500 * 3;
    let next: i64 = d.next_errors.iter().sum();
    assert_eq!(input, out + next + (-18) + 20 + 144);
    d.step();
    assert_eq!(d.prev_errors, d.next_errors);
}

#[test]
fn dither_full_and_dark_levels() {
    let mut d = Dither::new(2);
    // spin_pos 0: intensity 0, everything dark, no error
    d.pre_step(&frame(0, 0, 1000));
    assert_eq!(d.rgb, vec![(0, 0, 0), (0, 0, 0)]);
    assert_eq!(d.next_errors, vec![0, 0]);
    // carried error pushes a pixel to full
    d.prev_errors = vec![600, 0];
    d.pre_step(&frame(0, 250, 1000));
    // intensity 500; pixel 0: 1100 -> full, error 100
    assert_eq!(d.rgb[0], (255, 255, 0));
    // pixel 1: 500 + 43 -> half
    assert_eq!(d.rgb[1], (63, 63, 0));
}

#[test]
fn dither_step_carries_errors_unchanged() {
    let mut d = Dither::new(2);
    d.next_errors = vec![604, -604];
    d.step();
    assert_eq!(d.prev_errors, vec![604, -604]);
    assert_eq!(d.next_errors, vec![604, -604]);
    assert_eq!(d.frames, 1);
    assert!(d.is_wf());
}

#[test]
fn dither_restarts_after_frame_limit() {
    let mut d = Dither::new(2);
    d.frames = FRAME_LIMIT;
    d.next_errors = vec![5, -5];
    d.prev_errors = vec![7, -7];
    d.step();
    assert_eq!(d.frames, 0);
    assert_eq!(d.prev_errors, vec![0, 0]);
    assert_eq!(d.next_errors, vec![0, 0]);
}

#[test]
fn dither_errors_stay_within_bounds_over_many_frames() {
    let mut d = Dither::new(23);
    for k in 0..5000u64 {
        d.pre_step(&frame(0, (k * 37) % 1200, 1000));
        d.step();
        assert!(d.is_wf());
    }
}

#[test]
fn dither_renders_cache_on_both_sides() {
    let mut d = Dither::new(3);
    d.pre_step(&frame(0, 300, 1000));
    let mut leds = WheelLEDs::new(5);
    Mode::render(&d, Side::Left, &mut leds, &frame(0, 300, 1000));
    Mode::render(&d, Side::Right, &mut leds, &frame(0, 300, 1000));
    for i in 0..3 {
        assert_eq!(leds.get(Side::Left, i), d.rgb[i]);
        assert_eq!(leds.get(Side::Right, i), d.rgb[i]);
    }
    assert_eq!(leds.get(Side::Left, 4), (0, 0, 0));
}

#[test]
fn cellular_rule_18_steps() {
    // rule 18: neighbourhoods 1 (below only) and 4 (above only) come alive
    let mut c = CellularState::new(18, (1, 2, 3), vec![false, false, true, false, false]);
    c.step_cells();
    assert_eq!(c.cells, vec![false, true, false, true, false]);
    c.step_cells();
    assert_eq!(c.cells, vec![true, false, false, false, true]);
    // wraps round: cell 0's lower neighbour is cell 4
    c.step_cells();
    assert_eq!(c.cells, vec![false, true, false, true, false]);
}

#[test]
fn cellular_rule_bits_follow_neighbourhood() {
    // rule 2: only neighbourhood 1 (cell below alive, self and above dead)
    let mut c = CellularState::new(2, (1, 1, 1), vec![true, false, false, false]);
    c.step_cells();
    assert_eq!(c.cells, vec![false, true, false, false]);
}

#[test]
fn cellular_steps_on_sub_rotation_timer() {
    let mut c = CellularState::new(18, (9, 9, 9), vec![false, false, true, false, false]);
    // 1280 ms rotation: step every 10 ms
    c.step(&frame(10, 0, 1280));
    assert_eq!(c.cells, vec![false, false, true, false, false]);
    c.step(&frame(11, 0, 1280));
    assert_eq!(c.cells, vec![false, true, false, true, false]);
    assert_eq!(c.last_now, 11);
    c.step(&frame(21, 0, 1280));
    assert_eq!(c.last_now, 11);
    let mut leds = WheelLEDs::new(5);
    c.render_leds(Side::Right, &mut leds);
    assert_eq!(leds.get(Side::Right, 1), (9, 9, 9));
    assert_eq!(leds.get(Side::Right, 2), (0, 0, 0));
}

#[test]
fn construct_cellular_picks_a_pretty_rule() {
    for _ in 0..20 {
        let c = construct_cellular(23, (5, 5, 5));
        assert!(PRETTY_AUTOMATA.contains(&c.automata_number));
        assert_eq!(c.cells.len(), 23);
        assert_eq!(c.rgb, (5, 5, 5));
    }
}

#[test]
fn random_walk_stays_on_strip() {
    let mut w = RandomWalkDot::new(23);
    assert_eq!(w.led, 11);
    w.step_with(2);
    assert_eq!(w.led, 10);
    w.step_with(1);
    w.step_with(1);
    assert_eq!(w.led, 12);
    w.step_with(0);
    assert_eq!(w.led, 12);
    let mut edge = RandomWalkDot { led: 22, leds: 23 };
    edge.step_with(1);
    assert_eq!(edge.led, 22);
    let mut low = RandomWalkDot { led: 0, leds: 23 };
    low.step_with(2);
    assert_eq!(low.led, 0);
    for _ in 0..1000 {
        Mode::step(&mut w, &frame(0, 0, 0));
        assert!(w.led < 23);
    }
    let mut leds = WheelLEDs::new(23);
    w.render(Side::Left, &mut leds);
    for i in 0..23 {
        let want = if i == w.led { DOT_COLOUR } else { (0, 0, 0) };
        assert_eq!(leds.get(Side::Left, i), want);
    }
}

#[test]
fn white_trails_hit_one_pixel() {
    let mut t = Trails::new(4);
    t.step_with(2, 1);
    assert_eq!(t.leds, vec![(0, 0, 0), (0, 0, 0), (255, 255, 255), (0, 0, 0)]);
    t.step_with(2, 0);
    assert_eq!(t.leds, vec![(0, 0, 0); 4]);
    for _ in 0..50 {
        t.step(&frame(0, 0, 0));
    }
    assert_eq!(t.leds.len(), 4);
}

#[test]
fn hue_trails_fade_by_a_factor_of_one_point_three() {
    let mut h = HueTrails::new(3, 1);
    h.step_with(true, 1, 420);
    assert_eq!(h.leds, vec![(0, 0), (420, 1000), (0, 0)]);
    h.step_with(false, 0, 0);
    assert_eq!(h.leds[1], (420, 769));
    h.step_with(false, 0, 0);
    assert_eq!(h.leds[1], (420, 591));
    h.step_with(true, 1, 10);
    assert_eq!(h.leds[1], (10, 1000));
}

#[test]
fn caution_routines_take_turns_by_the_minute() {
    assert_eq!(caution_modes(0), Caution::AmberQuartersFader);
    assert_eq!(caution_modes(7), Caution::FadeAcross);
    let mut leds = WheelLEDs::new(23);
    // minute 1: amber quarters; at 0.5 s the first half-second: hub lit on the right side
    render_caution_mode(&mut leds, &frame(60_500, 0, 0));
    assert_eq!(leds.get(Side::Right, 0), (255, 64, 0));
    assert_eq!(leds.get(Side::Right, 11), (0, 0, 0));
    assert_eq!(leds.get(Side::Left, 0), (0, 0, 0));
    assert_eq!(leds.get(Side::Left, 22), (255, 64, 0));
}

#[test]
fn fader_ramps_up() {
    let mut leds = WheelLEDs::new(23);
    // minute 0: amber fader, 250 ms into the cycle: half way up
    render_caution_mode(&mut leds, &frame(250, 0, 0));
    assert_eq!(leds.get(Side::Right, 3), (127, 32, 0));
    assert_eq!(leds.get(Side::Left, 15), (127, 32, 0));
    assert_eq!(leds.get(Side::Left, 3), (0, 0, 0));
}

#[test]
fn fade_across_moves_one_pixel_per_tenth() {
    let mut leds = WheelLEDs::new(23);
    // minute 7: fade across; 350 ms into its 2.3 s cycle: phase pixel 3
    render_caution_mode(&mut leds, &frame(421_250, 0, 0));
    assert_eq!(leds.get(Side::Right, 3), (1, 0, 0));
    assert_eq!(leds.get(Side::Right, 4), (255, 64, 0));
    assert_eq!(leds.get(Side::Left, 3), (255, 64, 0));
    assert_eq!(leds.get(Side::Left, 4), (1, 0, 0));
}

#[test]
fn floodlight_is_grey_with_white_centre() {
    let mut leds = WheelLEDs::new(23);
    render_floodlight_mode(&mut leds, &frame(0, 0, 0));
    for side in [Side::Left, Side::Right] {
        for i in 0..23 {
            let want = if (9..14).contains(&i) { (255, 255, 255) } else { (32, 32, 32) };
            assert_eq!(leds.get(side, i), want);
        }
    }
}

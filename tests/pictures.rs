use rusty_wheels::leds::RGB24;
use rusty_wheels::patterns::{
    render_centre_red, render_fib_concentric, render_graycode_rim, render_radial_stripes,
    render_random_rim, render_rgb_trio, render_rim_bits, render_sliders,
};
use rusty_wheels::rotation::FrameState;

fn frame(now: u64, spin_pos: u64) -> FrameState {
    FrameState {
        now,
        loop_counter: 0,
        spin_pos,
        spin_length: 1000,
    }
}

fn side() -> Vec<RGB24> {
    vec![(9, 9, 9); 23]
}

#[test]
fn centre_red_halves_outwards() {
    let mut s = side();
    render_centre_red(&mut s, &frame(0, 0));
    assert_eq!(s[11], (128, 0, 0));
    assert_eq!(s[12], (128, 0, 0));
    assert_eq!(s[10], (64, 0, 0));
    assert_eq!(s[19], (1, 0, 0));
    assert_eq!(s[4], (1, 0, 0));
    assert_eq!(s[3], (0, 0, 0));
    assert_eq!(s[20], (0, 0, 0));
}

#[test]
fn fib_rings_from_the_rim() {
    let mut s = side();
    render_fib_concentric(&mut s, &frame(0, 0));
    let lit: Vec<usize> = (0..23).filter(|i| s[*i] == (128, 16, 0)).collect();
    assert_eq!(lit, vec![2, 10, 15, 18, 20, 21, 22]);
}

#[test]
fn rgb_trio_follows_the_rotation() {
    let mut s = side();
    render_rgb_trio(&mut s, &frame(0, 100));
    assert_eq!(s[0], (1, 0, 0));
    assert_eq!(s[22], (128, 0, 0));
    render_rgb_trio(&mut s, &frame(0, 400));
    assert_eq!(s[9], (0, 8, 0));
    render_rgb_trio(&mut s, &frame(0, 700));
    assert_eq!(s[21], (0, 0, 128));
    render_rgb_trio(&mut s, &frame(0, 900));
    assert_eq!(s[21], (0, 0, 0));
}

#[test]
fn graycode_counts_eighths() {
    let mut s = side();
    // eighth 2 (spin 0.3): gray 3 -> bits 0 and 1
    render_graycode_rim(&mut s, &frame(0, 300));
    assert_eq!(s[22], (255, 32, 0));
    assert_eq!(s[18], (255, 32, 0));
    assert_eq!(s[15], (0, 0, 0));
    // eighth 4 (spin 0.55): gray 6 -> bits 1 and 2
    render_graycode_rim(&mut s, &frame(0, 550));
    assert_eq!(s[22], (0, 0, 0));
    assert_eq!(s[17], (255, 32, 0));
    assert_eq!(s[14], (255, 32, 0));
    // far past one rotation the segment saturates at 255: gray 128
    render_graycode_rim(&mut s, &frame(0, 1_000_000));
    assert!(s.iter().all(|c| *c == (0, 0, 0)));
}

#[test]
fn radial_stripes_on_odd_32nds() {
    let mut s = side();
    render_radial_stripes(&mut s, &frame(0, 40));
    assert_eq!(s[12], (64, 64, 64));
    assert_eq!(s[11], (0, 0, 0));
    render_radial_stripes(&mut s, &frame(0, 70));
    assert_eq!(s[12], (0, 0, 0));
}

#[test]
fn sliders_mark_time_and_position() {
    let mut s = side();
    // back line: 500 ms -> pixel 11; spin 0.5 -> pixels 11, 19 and 4
    render_sliders(&mut s, &frame(1500, 500));
    assert_eq!(s[11], (255, 255, 255));
    assert_eq!(s[19], (255, 0, 255));
    assert_eq!(s[4], (255, 0, 255));
    assert_eq!(s[0], (0, 0, 0));
}

#[test]
fn rim_bits_show_a_three_bit_number() {
    let mut s = side();
    render_rim_bits(&mut s, 5);
    assert_eq!(s[20], (255, 0, 0));
    assert_eq!(s[21], (0, 0, 0));
    assert_eq!(s[22], (255, 0, 0));
    assert_eq!(s[0], (0, 0, 0));
    for _ in 0..20 {
        render_random_rim(&mut s, &frame(0, 0));
        assert!(s[20..23].iter().any(|c| *c == (255, 0, 0)));
        assert!(s[0..20].iter().all(|c| *c == (0, 0, 0)));
    }
}

use rusty_wheels::bitmap_text::{
    helper_render_bitmap, speed_kmh, str_to_bitmap, Glyph, PhraseMode, SpeedoMode,
};
use rusty_wheels::leds::{Side, WheelLEDs};

fn glyph(width: u32, rows: [u128; 7]) -> Glyph {
    Glyph {
        width,
        rows: rows.to_vec(),
    }
}

#[test]
fn glyphs_compose_left_to_right_with_a_gap() {
    let a = glyph(2, [0b11, 0b10, 0, 0, 0, 0, 0b01]);
    let b = glyph(1, [0b1, 0, 0b1, 0, 0, 0, 0]);
    let bitmap = str_to_bitmap(&vec![a, b]);
    assert_eq!(bitmap.len(), 7);
    // "a" shifted past b's column and the gap
    assert_eq!(bitmap[0], 0b1101);
    assert_eq!(bitmap[1], 0b1000);
    assert_eq!(bitmap[2], 0b0001);
    assert_eq!(bitmap[6], 0b0100);
    assert_eq!(str_to_bitmap(&vec![]), vec![0u128; 7]);
}

#[test]
fn bitmap_column_follows_spin_and_mirrors_on_left() {
    let rows: Vec<u128> = vec![1 << 64, 0, 0, 0, 0, 0, 1 << 63];
    let mut leds = WheelLEDs::new(10);
    let f = FrameState {
        now: 0,
        loop_counter: 0,
        spin_pos: 1500,
        spin_length: 1000,
    };
    // 0.5 of a rotation: column 64 on the right, 63 on the left
    helper_render_bitmap(&rows, Side::Right, &mut leds, &f);
    assert_eq!(leds.get(Side::Right, 9), (56, 255, 0));
    assert_eq!(leds.get(Side::Right, 3), (0, 0, 0));
    helper_render_bitmap(&rows, Side::Left, &mut leds, &f);
    assert_eq!(leds.get(Side::Left, 9), (0, 0, 0));
    assert_eq!(leds.get(Side::Left, 3), (255, 32, 0));
    assert_eq!(leds.get(Side::Left, 0), (0, 0, 0));
}

#[test]
fn speedometer_reading() {
    assert_eq!(speed_kmh(0), None);
    // 1.59 m in 1 s is 5.724 km/h
    assert_eq!(speed_kmh(1000), Some(6));
    assert_eq!(speed_kmh(286), Some(20));
    let mut s = SpeedoMode {
        canvas: PhraseMode { bitmap: vec![0; 7] },
        last_change: 0,
        last_spin_pos: 900,
        counter: 0,
    };
    let early = FrameState { now: 1000, loop_counter: 0, spin_pos: 10, spin_length: 1000 };
    assert!(!s.due(&early));
    let later = FrameState { now: 1001, loop_counter: 0, spin_pos: 10, spin_length: 1000 };
    assert!(s.due(&later));
    s.show_reading(vec![1; 7], &later);
    s.note_position(&later);
    assert_eq!(s.counter, 1);
    assert_eq!(s.last_change, 1001);
    assert_eq!(s.last_spin_pos, 10);
    assert!(!s.due(&FrameState { now: 5000, loop_counter: 0, spin_pos: 20, spin_length: 1000 }));
}

use rusty_wheels::patterns::{render_europa, render_fade_quarters, render_fade_spirals, render_spin_rim};

#[test]
fn spin_rim_lit_for_a_third_of_each_third() {
    let mut s = side();
    // 3 * 100 + 0 = 300 < 330: lit
    render_spin_rim(&mut s, &frame(0, 100));
    assert_eq!(s[20], (255, 64, 0));
    assert_eq!(s[21], (255, 128, 0));
    assert_eq!(s[22], (255, 64, 0));
    assert_eq!(s[0], (0, 0, 0));
    // 3 * 100 + 400 / 4 = 400: dark
    render_spin_rim(&mut s, &frame(400, 100));
    assert_eq!(s[21], (0, 0, 0));
}

#[test]
fn europa_stars_on_blue() {
    let mut s = side();
    // 12 * 10 = 120: the wide star
    render_europa(&mut s, &frame(0, 10));
    assert_eq!(s[17], (255, 255, 0));
    assert_eq!(s[19], (255, 255, 0));
    assert_eq!(s[0], (0, 0, 32));
    // 12 * 5 = 60: the point star
    render_europa(&mut s, &frame(0, 5));
    assert_eq!(s[18], (255, 255, 0));
    assert_eq!(s[17], (0, 0, 32));
}

#[test]
fn fade_spirals_halve_with_distance() {
    let mut s = side();
    // spin 0: green spiral at pixel 0, magenta at 11
    render_fade_spirals(&mut s, &frame(0, 0));
    assert_eq!(s[0], (0, 128, 0));
    assert_eq!(s[2], (0, 32, 0));
    assert_eq!(s[11], (128, 0, 128));
    assert_eq!(s[13], (32, 0, 32));
    assert_eq!(s[22], (0, 0, 0));
}

#[test]
fn fade_quarters_cube_the_phase() {
    let mut s = side();
    // 4 * 125 = 500: half way, cubed one eighth
    render_fade_quarters(&mut s, &frame(0, 125));
    assert_eq!(s[11], (31, 8, 0));
    assert_eq!(s[10], (0, 0, 0));
    render_fade_quarters(&mut s, &frame(0, 250));
    assert_eq!(s[22], (0, 0, 0));
}

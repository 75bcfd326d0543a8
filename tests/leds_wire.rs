use rusty_wheels::leds::{blank_leds, Side, WheelLEDs, RGB24};

#[test]
fn set_then_side_slice_round_trip() {
    let mut leds = WheelLEDs::new(23);
    leds.set(Side::Left, 5, (1, 2, 3));
    assert_eq!(leds.side_slice(Side::Left)[5], (1, 2, 3));
    assert_eq!(leds.side_slice(Side::Right)[5], (0, 0, 0));
    leds.set(Side::Right, 5, (9, 8, 7));
    assert_eq!(leds.side_slice(Side::Left)[5], (1, 2, 3));
    assert_eq!(leds.side_slice(Side::Right)[5], (9, 8, 7));
    assert_eq!(leds.get(Side::Right, 5), (9, 8, 7));
    for i in 0..23 {
        if i != 5 {
            assert_eq!(leds.side_slice_b(Side::Left)[i], (0, 0, 0));
            assert_eq!(leds.side_slice_b(Side::Right)[i], (0, 0, 0));
        }
    }
}

#[test]
fn every_index_round_trips_on_both_sides() {
    let mut leds = WheelLEDs::new(23);
    for i in 0..23usize {
        leds.set(Side::Left, i, (i as u8, 0, 1));
        leds.set(Side::Right, i, (0, i as u8, 2));
    }
    for i in 0..23usize {
        assert_eq!(leds.side_slice(Side::Left)[i], (i as u8, 0, 1));
        assert_eq!(leds.side_slice(Side::Right)[i], (0, i as u8, 2));
    }
}

#[test]
fn writes_through_side_slice_reach_that_side_only() {
    let mut leds = WheelLEDs::new(4);
    {
        let right = leds.side_slice(Side::Right);
        right[2] = (7, 7, 7);
    }
    assert_eq!(leds.get(Side::Right, 2), (7, 7, 7));
    assert_eq!(leds.get(Side::Left, 2), (0, 0, 0));
}

#[test]
fn all_black_buffer_encodes_to_reset_pixel_and_padding_frames() {
    let leds = WheelLEDs::new(23);
    let bytes = leds.show();
    assert_eq!(bytes.len(), 4 * (1 + 46 + 4));
    assert_eq!(&bytes[0..4], &[0, 0, 0, 0]);
    for f in 1..47 {
        assert_eq!(&bytes[4 * f..4 * f + 4], &[255, 0, 0, 0]);
    }
    for f in 47..51 {
        assert_eq!(&bytes[4 * f..4 * f + 4], &[0, 0, 0, 0]);
    }
}

#[test]
fn right_side_goes_out_rim_first_left_side_centre_first() {
    let n = 5;
    let mut leds = WheelLEDs::new(n);
    for i in 0..n {
        leds.set(Side::Left, i, (10 + i as u8, 20 + i as u8, 30 + i as u8));
        leds.set(Side::Right, i, (40 + i as u8, 50 + i as u8, 60 + i as u8));
    }
    let bytes = leds.show();
    assert_eq!(bytes.len(), 4 * (1 + 2 * n + 4));
    for i in 0..n {
        let f = 1 + i;
        assert_eq!(
            &bytes[4 * f..4 * f + 4],
            &[255, 30 + i as u8, 20 + i as u8, 10 + i as u8]
        );
    }
    for i in 0..n {
        let f = 1 + n + i;
        let k = (n - 1 - i) as u8;
        assert_eq!(&bytes[4 * f..4 * f + 4], &[255, 60 + k, 50 + k, 40 + k]);
    }
}

#[test]
fn empty_buffer_is_only_resets() {
    let leds = WheelLEDs::new(0);
    assert_eq!(leds.show(), vec![0u8; 20]);
}

#[test]
fn blank_leds_clears_a_side() {
    let mut side: Vec<RGB24> = vec![(1, 2, 3); 6];
    blank_leds(&mut side);
    assert_eq!(side, vec![(0, 0, 0); 6]);
}

//! Fixed pictures drawn on the first 23 pixels of a side, from the hub out,
//! keyed to spin position, time or nothing at all.
use crate::leds::RGB24;
use crate::random::random_below;
use crate::rotation::FrameState;
use vstd::arithmetic::div_mod::{
    lemma_add_mod_noop, lemma_hoist_over_denominator, lemma_mul_mod_noop_left,
};
use vstd::prelude::*;

verus! {

/// The number of pixels the pictures are drawn for.
pub const PATTERN_LEDS: usize = 23;

pub const FIB_AMBER: RGB24 = (128, 16, 0);

pub const GRAY_AMBER: RGB24 = (255, 32, 0);

/// The pictures.
#[derive(PartialEq, Eq, Structural, Copy, Clone, Debug)]
pub enum Pattern {
    /// Red brightest at the middle pixels, halving outwards both ways.
    CentreRed,
    /// Amber rings at Fibonacci distances from the rim.
    FibConcentric,
    /// Red, green and blue slices with black between them, brightening
    /// towards the rim.
    RgbTrio,
    /// A three-bit Gray code of the eighth of a rotation on the rim.
    GraycodeRim,
    /// The rim half in grey on every other 32nd of a rotation.
    RadialStripes,
    /// A green line sweeping once a second and three magenta lines turning
    /// with the wheel.
    Sliders,
    /// Three amber rim pixels lit for a third of each third of a rotation,
    /// drifting round once every four seconds.
    SpinRim,
    /// Yellow stars on blue, twelve times a rotation.
    Europa,
    /// Two spirals half a rotation apart, green and magenta, fading with
    /// distance.
    FadeSpirals,
    /// The rim half fading up in amber four times a rotation.
    FadeQuarters,
}

/// The distance between two pixel numbers.
pub open spec fn dist(a: int, b: int) -> int {
    if a >= b {
        a - b
    } else {
        b - a
    }
}

/// `p`: the position of a spiral at spin position `pos` plus `offset`
/// thousandths, held to the last pixel.
pub open spec fn spiral_at(pos: u64, offset: int) -> int {
    let s = ((pos as int + offset) % 1000) * 23 / 1000;
    if offset == 0 {
        let t = pos as int * 23 / 1000;
        if t > 22 {
            22
        } else {
            t
        }
    } else if s > 22 {
        22
    } else {
        s
    }
}

/// The colour of pixel `j` for a spiral at distance `d`: brightness halves
/// per pixel, and is gone beyond seven.
pub open spec fn spiral_level(d: int) -> u8 {
    if d > 7 {
        0
    } else {
        pow2_u8(7 - d)
    }
}

/// `2^k` for `k` from 0 to 7.
pub open spec fn pow2_u8(k: int) -> u8 {
    if k <= 0 {
        1
    } else if k == 1 {
        2
    } else if k == 2 {
        4
    } else if k == 3 {
        8
    } else if k == 4 {
        16
    } else if k == 5 {
        32
    } else if k == 6 {
        64
    } else {
        128
    }
}

fn pow2_exec(k: usize) -> (r: u8)
    requires
        k <= 7,
    ensures
        r == pow2_u8(k as int),
{
    if k == 0 {
        1
    } else if k == 1 {
        2
    } else if k == 2 {
        4
    } else if k == 3 {
        8
    } else if k == 4 {
        16
    } else if k == 5 {
        32
    } else if k == 6 {
        64
    } else {
        128
    }
}

/// Eighths or 32nds of a rotation, saturating at 255.
pub open spec fn segment_of(spin_pos: u64, parts: int) -> int {
    let s = spin_pos as int * parts / 1000;
    if s > 255 {
        255
    } else {
        s
    }
}

/// The colour of pixel `j` (below 23) of a picture.
pub open spec fn pattern_pixel(p: Pattern, frame: FrameState, j: int) -> RGB24 {
    match p {
        Pattern::CentreRed => if 4 <= j <= 11 {
            (pow2_u8(j - 4), 0u8, 0u8)
        } else if 12 <= j <= 19 {
            (pow2_u8(19 - j), 0u8, 0u8)
        } else {
            (0u8, 0u8, 0u8)
        },
        Pattern::FibConcentric => if j == 22 || j == 21 || j == 20 || j == 18 || j == 15 || j
            == 10 || j == 2 {
            FIB_AMBER
        } else {
            (0u8, 0u8, 0u8)
        },
        Pattern::RgbTrio => {
            let b = pow2_u8(j / 3);
            if frame.spin_pos < 160 {
                (b, 0u8, 0u8)
            } else if frame.spin_pos < 320 {
                (0u8, 0u8, 0u8)
            } else if frame.spin_pos < 480 {
                (0u8, b, 0u8)
            } else if frame.spin_pos < 640 {
                (0u8, 0u8, 0u8)
            } else if frame.spin_pos < 800 {
                (0u8, 0u8, b)
            } else {
                (0u8, 0u8, 0u8)
            }
        },
        Pattern::GraycodeRim => {
            let seg = segment_of(frame.spin_pos, 8) as u8;
            let gray = seg ^ (seg >> 1u8);
            if (20 <= j <= 22 && gray & 1u8 != 0) || (17 <= j <= 19 && gray & 2u8 != 0) || (14
                <= j <= 16 && gray & 4u8 != 0) {
                GRAY_AMBER
            } else {
                (0u8, 0u8, 0u8)
            }
        },
        Pattern::RadialStripes => if j >= 12 && segment_of(frame.spin_pos, 32) % 2 == 1 {
            (64u8, 64u8, 64u8)
        } else {
            (0u8, 0u8, 0u8)
        },
        Pattern::Sliders => {
            let back = (frame.now as int % 1000) * 23 / 1000;
            let spin_back = frame.spin_pos as int * 23 / 1000;
            let g: u8 = if j == back {
                255
            } else {
                0
            };
            let r: u8 = if j == spin_back || j == (spin_back + 8) % 23 || j == (spin_back + 16)
                % 23 {
                255
            } else {
                0
            };
            (r, g, r)
        },
        Pattern::SpinRim => {
            let k = (frame.spin_pos as int * 3 + frame.now as int / 4) % 1000;
            if k < 330 && j == 21 {
                (255u8, 128u8, 0u8)
            } else if k < 330 && (j == 20 || j == 22) {
                (255u8, 64u8, 0u8)
            } else {
                (0u8, 0u8, 0u8)
            }
        },
        Pattern::Europa => {
            let seg = (frame.spin_pos as int * 12) % 1000;
            if (seg < 80 || (160 <= seg < 240)) && j == 18 {
                (255u8, 255u8, 0u8)
            } else if 80 <= seg < 160 && 17 <= j < 20 {
                (255u8, 255u8, 0u8)
            } else {
                (0u8, 0u8, 32u8)
            }
        },
        Pattern::FadeSpirals => {
            let d1 = dist(spiral_at(frame.spin_pos, 0), j);
            let d2 = dist(spiral_at(frame.spin_pos, 500), j);
            if d1 < d2 {
                (0u8, spiral_level(d1), 0u8)
            } else {
                (spiral_level(d2), 0u8, spiral_level(d2))
            }
        },
        Pattern::FadeQuarters => {
            let f = (frame.spin_pos as int * 4) % 1000;
            if j < 11 {
                (0u8, 0u8, 0u8)
            } else {
                ((255 * f * f * f / 1_000_000_000) as u8, (64 * f * f * f / 1_000_000_000) as u8, 0u8)
            }
        },
    }
}

fn spiral_level_exec(d: u64) -> (r: u8)
    ensures
        r == spiral_level(d as int),
{
    if d > 7 {
        0
    } else {
        pow2_exec((7 - d) as usize)
    }
}

/// `(pos * k) % 1000`, without overflow.
fn scaled_mod(pos: u64, k: u64) -> (r: u64)
    requires
        0 < k <= 32,
    ensures
        r == (pos as int * k as int) % 1000,
        r < 1000,
{
    proof {
        lemma_mul_mod_noop_left(pos as int, k as int, 1000);
    }
    let p = pos % 1000;
    assert(p * k <= 999 * 32) by (nonlinear_arith)
        requires
            p < 1000,
            k <= 32,
    ;
    p * k % 1000
}

proof fn lemma_scale_thousandths(pos: int, k: int)
    requires
        pos >= 0,
        k > 0,
    ensures
        (pos / 1000) * k + (pos % 1000) * k / 1000 == pos * k / 1000,
{
    let q = pos / 1000;
    let r = pos % 1000;
    assert(pos == q * 1000 + r);
    assert(pos * k == r * k + (q * k) * 1000) by (nonlinear_arith)
        requires
            pos == q * 1000 + r,
    ;
    lemma_hoist_over_denominator(r * k, q * k, 1000);
}

fn pattern_pixel_exec(p: Pattern, frame: &FrameState, j: usize) -> (r: RGB24)
    requires
        j < PATTERN_LEDS,
    ensures
        r == pattern_pixel(p, *frame, j as int),
{
    match p {
        Pattern::CentreRed => if 4 <= j && j <= 11 {
            (pow2_exec(j - 4), 0, 0)
        } else if 12 <= j && j <= 19 {
            (pow2_exec(19 - j), 0, 0)
        } else {
            (0, 0, 0)
        },
        Pattern::FibConcentric => if j == 22 || j == 21 || j == 20 || j == 18 || j == 15 || j
            == 10 || j == 2 {
            FIB_AMBER
        } else {
            (0, 0, 0)
        },
        Pattern::RgbTrio => {
            let b = pow2_exec(j / 3);
            if frame.spin_pos < 160 {
                (b, 0, 0)
            } else if frame.spin_pos < 320 {
                (0, 0, 0)
            } else if frame.spin_pos < 480 {
                (0, b, 0)
            } else if frame.spin_pos < 640 {
                (0, 0, 0)
            } else if frame.spin_pos < 800 {
                (0, 0, b)
            } else {
                (0, 0, 0)
            }
        },
        Pattern::GraycodeRim => {
            let s = frame.spin_pos / 1000 * 8 + frame.spin_pos % 1000 * 8 / 1000;
            proof {
                lemma_scale_thousandths(frame.spin_pos as int, 8);
            }
            let seg: u8 = if s > 255 {
                255
            } else {
                s as u8
            };
            let gray = seg ^ (seg >> 1u8);
            if (20 <= j && j <= 22 && gray & 1u8 != 0) || (17 <= j && j <= 19 && gray & 2u8 != 0)
                || (14 <= j && j <= 16 && gray & 4u8 != 0) {
                GRAY_AMBER
            } else {
                (0, 0, 0)
            }
        },
        Pattern::RadialStripes => {
            let s = frame.spin_pos / 1000 * 32 + frame.spin_pos % 1000 * 32 / 1000;
            proof {
                lemma_scale_thousandths(frame.spin_pos as int, 32);
            }
            let seg: u64 = if s > 255 {
                255
            } else {
                s
            };
            if j >= 12 && seg % 2 == 1 {
                (64, 64, 64)
            } else {
                (0, 0, 0)
            }
        },
        Pattern::Sliders => {
            let back = (frame.now % 1000) * 23 / 1000;
            let spin_back = frame.spin_pos / 1000 * 23 + frame.spin_pos % 1000 * 23 / 1000;
            proof {
                lemma_scale_thousandths(frame.spin_pos as int, 23);
            }
            let sb = spin_back % 23;
            proof {
                lemma_add_mod_noop(spin_back as int, 8, 23);
                lemma_add_mod_noop(spin_back as int, 16, 23);
                lemma_add_mod_noop(sb as int, 8, 23);
                lemma_add_mod_noop(sb as int, 16, 23);
            }
            let jj = j as u64;
            let g: u8 = if jj == back {
                255
            } else {
                0
            };
            let r: u8 = if jj == spin_back || jj == (sb + 8) % 23 || jj == (sb + 16) % 23 {
                255
            } else {
                0
            };
            (r, g, r)
        },
        Pattern::SpinRim => {
            let a = scaled_mod(frame.spin_pos, 3);
            let k = (a + (frame.now / 4) % 1000) % 1000;
            proof {
                lemma_add_mod_noop(frame.spin_pos as int * 3, frame.now as int / 4, 1000);
            }
            if k < 330 && j == 21 {
                (255, 128, 0)
            } else if k < 330 && (j == 20 || j == 22) {
                (255, 64, 0)
            } else {
                (0, 0, 0)
            }
        },
        Pattern::Europa => {
            let seg = scaled_mod(frame.spin_pos, 12);
            if (seg < 80 || (160 <= seg && seg < 240)) && j == 18 {
                (255, 255, 0)
            } else if 80 <= seg && seg < 160 && 17 <= j && j < 20 {
                (255, 255, 0)
            } else {
                (0, 0, 32)
            }
        },
        Pattern::FadeSpirals => {
            let t = frame.spin_pos / 1000 * 23 + frame.spin_pos % 1000 * 23 / 1000;
            proof {
                lemma_scale_thousandths(frame.spin_pos as int, 23);
            }
            let s1: u64 = if t > 22 {
                22
            } else {
                t
            };
            let h = (frame.spin_pos % 1000 + 500) % 1000;
            proof {
                lemma_add_mod_noop(frame.spin_pos as int, 500, 1000);
            }
            let u = h * 23 / 1000;
            let s2: u64 = if u > 22 {
                22
            } else {
                u
            };
            let jj = j as u64;
            let d1 = if s1 >= jj {
                s1 - jj
            } else {
                jj - s1
            };
            let d2 = if s2 >= jj {
                s2 - jj
            } else {
                jj - s2
            };
            if d1 < d2 {
                (0, spiral_level_exec(d1), 0)
            } else {
                let v = spiral_level_exec(d2);
                (v, 0, v)
            }
        },
        Pattern::FadeQuarters => {
            let f = scaled_mod(frame.spin_pos, 4);
            if j < 11 {
                (0, 0, 0)
            } else {
                assert(255 * f <= 255 * 999) by (nonlinear_arith)
                    requires
                        f < 1000,
                ;
                assert(255 * f * f <= 255 * 999 * 999) by (nonlinear_arith)
                    requires
                        f < 1000,
                        255 * f <= 255 * 999,
                ;
                assert(255 * f * f * f <= 255 * 999 * 999 * 999) by (nonlinear_arith)
                    requires
                        f < 1000,
                        255 * f * f <= 255 * 999 * 999,
                ;
                assert(64 * f * f <= 64 * 999 * 999 && 64 * f * f * f <= 64 * 999 * 999 * 999)
                    by (nonlinear_arith)
                    requires
                        f < 1000,
                ;
                let red = 255 * f * f * f / 1_000_000_000;
                let green = 64 * f * f * f / 1_000_000_000;
                (red as u8, green as u8, 0)
            }
        },
    }
}

/// Draws a picture on the first 23 pixels of a side.
pub fn render_pattern(p: Pattern, wheel_leds: &mut [RGB24], framestate: &FrameState)
    requires
        old(wheel_leds)@.len() >= PATTERN_LEDS,
    ensures
        final(wheel_leds)@.len() == old(wheel_leds)@.len(),
        forall|j: int|
            0 <= j < PATTERN_LEDS ==> #[trigger] final(wheel_leds)@[j] == pattern_pixel(
                p,
                *framestate,
                j,
            ),
        forall|j: int|
            PATTERN_LEDS <= j < old(wheel_leds)@.len() ==> #[trigger] final(wheel_leds)@[j] == old(
                wheel_leds,
            )@[j],
{
    let mut j: usize = 0;
    while j < PATTERN_LEDS
        invariant
            0 <= j <= PATTERN_LEDS,
            old(wheel_leds)@.len() >= PATTERN_LEDS,
            wheel_leds@.len() == old(wheel_leds)@.len(),
            forall|i: int|
                0 <= i < j ==> #[trigger] wheel_leds@[i] == pattern_pixel(p, *framestate, i),
            forall|i: int|
                j <= i < old(wheel_leds)@.len() ==> #[trigger] wheel_leds@[i] == old(
                    wheel_leds,
                )@[i],
        decreases PATTERN_LEDS - j,
    {
        wheel_leds[j] = pattern_pixel_exec(p, framestate, j);
        j = j + 1;
    }
}

/// Red brightest at the middle pixels, halving outwards both ways.
pub fn render_centre_red(wheel_leds: &mut [RGB24], framestate: &FrameState)
    requires
        old(wheel_leds)@.len() >= PATTERN_LEDS,
    ensures
        final(wheel_leds)@.len() == old(wheel_leds)@.len(),
        forall|j: int|
            0 <= j < PATTERN_LEDS ==> #[trigger] final(wheel_leds)@[j] == pattern_pixel(
                Pattern::CentreRed,
                *framestate,
                j,
            ),
{
    render_pattern(Pattern::CentreRed, wheel_leds, framestate);
}

/// Amber rings at Fibonacci distances from the rim.
pub fn render_fib_concentric(wheel_leds: &mut [RGB24], framestate: &FrameState)
    requires
        old(wheel_leds)@.len() >= PATTERN_LEDS,
    ensures
        final(wheel_leds)@.len() == old(wheel_leds)@.len(),
        forall|j: int|
            0 <= j < PATTERN_LEDS ==> #[trigger] final(wheel_leds)@[j] == pattern_pixel(
                Pattern::FibConcentric,
                *framestate,
                j,
            ),
{
    render_pattern(Pattern::FibConcentric, wheel_leds, framestate);
}

/// Red, green and blue slices of the rotation with black between them.
pub fn render_rgb_trio(wheel_leds: &mut [RGB24], framestate: &FrameState)
    requires
        old(wheel_leds)@.len() >= PATTERN_LEDS,
    ensures
        final(wheel_leds)@.len() == old(wheel_leds)@.len(),
        forall|j: int|
            0 <= j < PATTERN_LEDS ==> #[trigger] final(wheel_leds)@[j] == pattern_pixel(
                Pattern::RgbTrio,
                *framestate,
                j,
            ),
{
    render_pattern(Pattern::RgbTrio, wheel_leds, framestate);
}

/// A Gray code of the eighth of the rotation on the rim.
pub fn render_graycode_rim(wheel_leds: &mut [RGB24], framestate: &FrameState)
    requires
        old(wheel_leds)@.len() >= PATTERN_LEDS,
    ensures
        final(wheel_leds)@.len() == old(wheel_leds)@.len(),
        forall|j: int|
            0 <= j < PATTERN_LEDS ==> #[trigger] final(wheel_leds)@[j] == pattern_pixel(
                Pattern::GraycodeRim,
                *framestate,
                j,
            ),
{
    render_pattern(Pattern::GraycodeRim, wheel_leds, framestate);
}

/// Grey stripes on the rim half, every other 32nd of a rotation.
pub fn render_radial_stripes(wheel_leds: &mut [RGB24], framestate: &FrameState)
    requires
        old(wheel_leds)@.len() >= PATTERN_LEDS,
    ensures
        final(wheel_leds)@.len() == old(wheel_leds)@.len(),
        forall|j: int|
            0 <= j < PATTERN_LEDS ==> #[trigger] final(wheel_leds)@[j] == pattern_pixel(
                Pattern::RadialStripes,
                *framestate,
                j,
            ),
{
    render_pattern(Pattern::RadialStripes, wheel_leds, framestate);
}

/// A green line that sweeps out once a second and three magenta lines that
/// turn with the wheel.
pub fn render_sliders(wheel_leds: &mut [RGB24], framestate: &FrameState)
    requires
        old(wheel_leds)@.len() >= PATTERN_LEDS,
    ensures
        final(wheel_leds)@.len() == old(wheel_leds)@.len(),
        forall|j: int|
            0 <= j < PATTERN_LEDS ==> #[trigger] final(wheel_leds)@[j] == pattern_pixel(
                Pattern::Sliders,
                *framestate,
                j,
            ),
{
    render_pattern(Pattern::Sliders, wheel_leds, framestate);
}

/// Amber rim pixels lit a third of each third of a rotation, drifting round
/// once every four seconds.
pub fn render_spin_rim(wheel_leds: &mut [RGB24], framestate: &FrameState)
    requires
        old(wheel_leds)@.len() >= PATTERN_LEDS,
    ensures
        final(wheel_leds)@.len() == old(wheel_leds)@.len(),
        forall|j: int|
            0 <= j < PATTERN_LEDS ==> #[trigger] final(wheel_leds)@[j] == pattern_pixel(
                Pattern::SpinRim,
                *framestate,
                j,
            ),
{
    render_pattern(Pattern::SpinRim, wheel_leds, framestate);
}

/// Yellow stars on a blue field.
pub fn render_europa(wheel_leds: &mut [RGB24], framestate: &FrameState)
    requires
        old(wheel_leds)@.len() >= PATTERN_LEDS,
    ensures
        final(wheel_leds)@.len() == old(wheel_leds)@.len(),
        forall|j: int|
            0 <= j < PATTERN_LEDS ==> #[trigger] final(wheel_leds)@[j] == pattern_pixel(
                Pattern::Europa,
                *framestate,
                j,
            ),
{
    render_pattern(Pattern::Europa, wheel_leds, framestate);
}

/// Two spirals half a rotation apart, fading with distance.
pub fn render_fade_spirals(wheel_leds: &mut [RGB24], framestate: &FrameState)
    requires
        old(wheel_leds)@.len() >= PATTERN_LEDS,
    ensures
        final(wheel_leds)@.len() == old(wheel_leds)@.len(),
        forall|j: int|
            0 <= j < PATTERN_LEDS ==> #[trigger] final(wheel_leds)@[j] == pattern_pixel(
                Pattern::FadeSpirals,
                *framestate,
                j,
            ),
{
    render_pattern(Pattern::FadeSpirals, wheel_leds, framestate);
}

/// The rim half fading up in amber four times a rotation, brightness the
/// cube of the phase.
pub fn render_fade_quarters(wheel_leds: &mut [RGB24], framestate: &FrameState)
    requires
        old(wheel_leds)@.len() >= PATTERN_LEDS,
    ensures
        final(wheel_leds)@.len() == old(wheel_leds)@.len(),
        forall|j: int|
            0 <= j < PATTERN_LEDS ==> #[trigger] final(wheel_leds)@[j] == pattern_pixel(
                Pattern::FadeQuarters,
                *framestate,
                j,
            ),
{
    render_pattern(Pattern::FadeQuarters, wheel_leds, framestate);
}

/// The rim of three pixels showing the bits of `n` in red, the rest dark.
pub open spec fn random_rim_pixel(n: u8, j: int) -> RGB24 {
    if 20 <= j < 23 && (n >> ((j - 20) as u8)) & 1u8 == 1u8 {
        (255u8, 0u8, 0u8)
    } else {
        (0u8, 0u8, 0u8)
    }
}

/// The first 23 pixels show the bits of `n` on the rim.
pub open spec fn rim_shows(s: Seq<RGB24>, n: u8) -> bool {
    forall|j: int| 0 <= j < PATTERN_LEDS ==> #[trigger] s[j] == random_rim_pixel(n, j)
}

/// Shows the bits of `n` in red on the three rim pixels, the rest dark.
pub fn render_rim_bits(wheel_leds: &mut [RGB24], n: u8)
    requires
        old(wheel_leds)@.len() >= PATTERN_LEDS,
    ensures
        final(wheel_leds)@.len() == old(wheel_leds)@.len(),
        forall|j: int|
            0 <= j < PATTERN_LEDS ==> #[trigger] final(wheel_leds)@[j] == random_rim_pixel(n, j),
{
    let mut j: usize = 0;
    while j < PATTERN_LEDS
        invariant
            0 <= j <= PATTERN_LEDS,
            old(wheel_leds)@.len() >= PATTERN_LEDS,
            wheel_leds@.len() == old(wheel_leds)@.len(),
            forall|i: int| 0 <= i < j ==> #[trigger] wheel_leds@[i] == random_rim_pixel(n, i),
        decreases PATTERN_LEDS - j,
    {
        let c: RGB24 = if j >= 20 && (n >> ((j - 20) as u8)) & 1u8 == 1u8 {
            (255, 0, 0)
        } else {
            (0, 0, 0)
        };
        wheel_leds[j] = c;
        j = j + 1;
    }
}

/// Shows a random non-zero three-bit number in red on the rim.
pub fn render_random_rim(wheel_leds: &mut [RGB24], framestate: &FrameState)
    requires
        old(wheel_leds)@.len() >= PATTERN_LEDS,
    ensures
        final(wheel_leds)@.len() == old(wheel_leds)@.len(),
        exists|n: u8| 1 <= n < 8 && #[trigger] rim_shows(final(wheel_leds)@, n),
{
    let n = (random_below(7) + 1) as u8;
    render_rim_bits(wheel_leds, n);
    assert(rim_shows(wheel_leds@, n));
}

} // verus!

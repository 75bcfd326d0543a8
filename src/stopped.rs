//! Displays for a stopped wheel: flashing amber and red caution patterns
//! that take turns by the minute, and a plain floodlight.
use crate::leds::{other_side, Side, WheelLEDs, RGB24};
use crate::rotation::FrameState;
use crate::schedule::{stopped_routine, stopped_routine_spec};
use vstd::prelude::*;

verus! {

/// The number of caution routines.
pub const CAUTION_ROUTINES: u64 = 8;

pub const AMBER: RGB24 = (255, 64, 0);

pub const RED: RGB24 = (255, 0, 0);

pub const BLACK: RGB24 = (0, 0, 0);

/// The caution routines, in the order in which they take turns.
#[derive(PartialEq, Eq, Structural, Copy, Clone, Debug)]
pub enum Caution {
    AmberQuartersFader,
    AmberQuarters,
    AmberSwap,
    RedYellowSlide,
    RedYellowCentrePulse,
    FullQuickRyPulse,
    FullQuickPulse,
    FadeAcross,
}

/// The caution routine at position `i` of the turn order.
pub open spec fn caution_at(i: u64) -> Caution {
    if i == 0 {
        Caution::AmberQuartersFader
    } else if i == 1 {
        Caution::AmberQuarters
    } else if i == 2 {
        Caution::AmberSwap
    } else if i == 3 {
        Caution::RedYellowSlide
    } else if i == 4 {
        Caution::RedYellowCentrePulse
    } else if i == 5 {
        Caution::FullQuickRyPulse
    } else if i == 6 {
        Caution::FullQuickPulse
    } else {
        Caution::FadeAcross
    }
}

/// The caution routine at position `i` of the turn order.
pub fn caution_modes(i: u64) -> (r: Caution)
    ensures
        r == caution_at(i),
{
    if i == 0 {
        Caution::AmberQuartersFader
    } else if i == 1 {
        Caution::AmberQuarters
    } else if i == 2 {
        Caution::AmberSwap
    } else if i == 3 {
        Caution::RedYellowSlide
    } else if i == 4 {
        Caution::RedYellowCentrePulse
    } else if i == 5 {
        Caution::FullQuickRyPulse
    } else if i == 6 {
        Caution::FullQuickPulse
    } else {
        Caution::FadeAcross
    }
}

/// Colour `on` on the hub half (pixels below 11) or on the rim half.
pub open spec fn halves(hub_on: bool, led: int, on: RGB24) -> RGB24 {
    if (led < 11) == hub_on {
        on
    } else {
        BLACK
    }
}

/// The colour of the fading amber at `now`: half-second ramps up and down.
pub open spec fn fader_colour(now: u64) -> RGB24 {
    let cycle = (now % 2000) % 1000;
    let fc = cycle % 500;
    let s2 = (fc * 255 / 500) as u8;
    let s3 = (fc * 64 / 500) as u8;
    if cycle / 500 == 0 {
        (s2, s3, 0u8)
    } else {
        ((255 - s2) as u8, (64 - s3) as u8, 0u8)
    }
}

/// The colour of the sliding red and amber bands at offset `l` from the
/// start of the pattern.
pub open spec fn slide_colour(l: int) -> RGB24 {
    if 1 <= l < 7 {
        RED
    } else if 13 <= l < 19 {
        AMBER
    } else {
        BLACK
    }
}

/// The fixed red gradient of the centre pulse; pixels 9 to 13 pulse.
pub open spec fn centre_gradient(led: int) -> RGB24 {
    if led < 2 {
        (2u8, 0u8, 0u8)
    } else if led < 4 {
        (8u8, 0u8, 0u8)
    } else if led < 6 {
        (64u8, 0u8, 0u8)
    } else if led < 8 {
        RED
    } else if led < 15 {
        BLACK
    } else if led < 17 {
        RED
    } else if led < 19 {
        (64u8, 0u8, 0u8)
    } else if led < 21 {
        (8u8, 0u8, 0u8)
    } else {
        (2u8, 0u8, 0u8)
    }
}

/// What a caution routine shows at pixel `led` of `n`, on `side`, at time
/// `now` in milliseconds; `None` leaves the pixel as it was.
pub open spec fn caution_pixel(routine: Caution, side: Side, now: u64, n: int, led: int) -> Option<
    RGB24,
> {
    let left = side == Side::Left;
    let topside = (now / 1000) % 2 == 0;
    let flicker = (now / 25) % 4 == 0;
    match routine {
        Caution::AmberQuartersFader => Some(
            halves(((now % 2000) / 1000 == 0) != left, led, fader_colour(now)),
        ),
        Caution::AmberQuarters => Some(halves(((now % 2000) / 1000 == 0) != left, led, AMBER)),
        Caution::AmberSwap => Some(
            if 9 <= led < 14 && (topside != left) {
                AMBER
            } else {
                BLACK
            },
        ),
        Caution::RedYellowSlide => {
            let shift = (now as int / 32) % n;
            if led < shift {
                None
            } else {
                Some(slide_colour(led - shift))
            }
        },
        Caution::RedYellowCentrePulse => Some(
            if 9 <= led < 14 {
                if (topside != left) && flicker {
                    (255u8, 255u8, 0u8)
                } else {
                    BLACK
                }
            } else {
                centre_gradient(led)
            },
        ),
        Caution::FullQuickRyPulse => Some(
            if (topside != left) && flicker && (now / 250) % 2 == 0 {
                if led % 2 == 0 {
                    RED
                } else {
                    (128u8, 64u8, 0u8)
                }
            } else {
                BLACK
            },
        ),
        Caution::FullQuickPulse => Some(
            if (topside != left) && flicker && (now / 250) % 2 == 0 {
                AMBER
            } else {
                BLACK
            },
        ),
        Caution::FadeAcross => {
            let led_phase = (now as int % (n * 100)) / 100;
            Some(
                if (led > led_phase) != left {
                    AMBER
                } else {
                    (1u8, 0u8, 0u8)
                },
            )
        },
    }
}

/// What a caution routine shows at one pixel.
pub fn caution_pixel_exec(routine: Caution, side: Side, now: u64, n: usize, led: usize) -> (r:
    Option<RGB24>)
    requires
        led < n,
        n * 100 <= u64::MAX,
    ensures
        r == caution_pixel(routine, side, now, n as int, led as int),
{
    let left = side == Side::Left;
    let topside = (now / 1000) % 2 == 0;
    let flicker = (now / 25) % 4 == 0;
    match routine {
        Caution::AmberQuartersFader => {
            let hub_on = ((now % 2000) / 1000 == 0) != left;
            let cycle = (now % 2000) % 1000;
            let fc = cycle % 500;
            let s2 = (fc * 255 / 500) as u8;
            let s3 = (fc * 64 / 500) as u8;
            let on: RGB24 = if cycle / 500 == 0 {
                (s2, s3, 0)
            } else {
                (255 - s2, 64 - s3, 0)
            };
            Some(
                if (led < 11) == hub_on {
                    on
                } else {
                    BLACK
                },
            )
        },
        Caution::AmberQuarters => {
            let hub_on = ((now % 2000) / 1000 == 0) != left;
            Some(
                if (led < 11) == hub_on {
                    AMBER
                } else {
                    BLACK
                },
            )
        },
        Caution::AmberSwap => Some(
            if 9 <= led && led < 14 && (topside != left) {
                AMBER
            } else {
                BLACK
            },
        ),
        Caution::RedYellowSlide => {
            let shift = (now / 32) % (n as u64);
            if (led as u64) < shift {
                None
            } else {
                let l = led - shift as usize;
                Some(
                    if 1 <= l && l < 7 {
                        RED
                    } else if 13 <= l && l < 19 {
                        AMBER
                    } else {
                        BLACK
                    },
                )
            }
        },
        Caution::RedYellowCentrePulse => Some(
            if 9 <= led && led < 14 {
                if (topside != left) && flicker {
                    (255, 255, 0)
                } else {
                    BLACK
                }
            } else if led < 2 {
                (2, 0, 0)
            } else if led < 4 {
                (8, 0, 0)
            } else if led < 6 {
                (64, 0, 0)
            } else if led < 8 {
                RED
            } else if led < 15 {
                BLACK
            } else if led < 17 {
                RED
            } else if led < 19 {
                (64, 0, 0)
            } else if led < 21 {
                (8, 0, 0)
            } else {
                (2, 0, 0)
            },
        ),
        Caution::FullQuickRyPulse => Some(
            if (topside != left) && flicker && (now / 250) % 2 == 0 {
                if led % 2 == 0 {
                    RED
                } else {
                    (128, 64, 0)
                }
            } else {
                BLACK
            },
        ),
        Caution::FullQuickPulse => Some(
            if (topside != left) && flicker && (now / 250) % 2 == 0 {
                AMBER
            } else {
                BLACK
            },
        ),
        Caution::FadeAcross => {
            let max_phase = (n as u64) * 100;
            let led_phase = (now % max_phase) / 100;
            Some(
                if ((led as u64) > led_phase) != left {
                    AMBER
                } else {
                    (1, 0, 0)
                },
            )
        },
    }
}

/// Draws one caution routine on one side.
pub fn render_caution_routine(routine: Caution, side: Side, leds: &mut WheelLEDs, now: u64)
    requires
        old(leds).wf(),
        old(leds).num_leds() * 100 <= u64::MAX,
    ensures
        final(leds).wf(),
        final(leds).num_leds() == old(leds).num_leds(),
        forall|j: int|
            0 <= j < old(leds).num_leds() ==> #[trigger] final(leds).side_view(side)[j] == match
                caution_pixel(routine, side, now, old(leds).num_leds() as int, j) {
                Some(c) => c,
                None => old(leds).side_view(side)[j],
            },
        final(leds).side_view(other_side(side)) == old(leds).side_view(other_side(side)),
{
    let n = leds.len();
    let mut led: usize = 0;
    proof {
        old(leds).lemma_wf_lengths();
    }
    while led < n
        invariant
            leds.wf(),
            n == leds.num_leds(),
            n == old(leds).num_leds(),
            n * 100 <= u64::MAX,
            0 <= led <= n,
            leds.side_view(side).len() == n,
            old(leds).side_view(side).len() == n,
            forall|j: int|
                0 <= j < led ==> #[trigger] leds.side_view(side)[j] == match caution_pixel(
                    routine,
                    side,
                    now,
                    n as int,
                    j,
                ) {
                    Some(c) => c,
                    None => old(leds).side_view(side)[j],
                },
            forall|j: int| led <= j < n ==> #[trigger] leds.side_view(side)[j] == old(leds).side_view(side)[j],
            leds.side_view(other_side(side)) == old(leds).side_view(other_side(side)),
        decreases n - led,
    {
        proof {
            leds.lemma_wf_lengths();
        }
        match caution_pixel_exec(routine, side, now, n, led) {
            Some(c) => leds.set(side, led, c),
            None => {},
        }
        led = led + 1;
    }
}

/// Draws the caution routine whose turn it is on both sides: each runs for
/// a minute, in the order of `caution_at`.
pub fn render_caution_mode(wheel_leds: &mut WheelLEDs, framestate: &FrameState)
    requires
        old(wheel_leds).wf(),
        old(wheel_leds).num_leds() * 100 <= u64::MAX,
    ensures
        final(wheel_leds).wf(),
        final(wheel_leds).num_leds() == old(wheel_leds).num_leds(),
        ({
            let routine = caution_at(stopped_routine_spec(framestate.now, CAUTION_ROUTINES));
            let n = old(wheel_leds).num_leds() as int;
            forall|side: Side, j: int|
                0 <= j < n ==> #[trigger] final(wheel_leds).side_view(side)[j] == match caution_pixel(
                    routine,
                    side,
                    framestate.now,
                    n,
                    j,
                ) {
                    Some(c) => c,
                    None => old(wheel_leds).side_view(side)[j],
                }
        }),
{
    let t = stopped_routine(framestate.now, CAUTION_ROUTINES);
    let routine = caution_modes(t);
    render_caution_routine(routine, Side::Left, wheel_leds, framestate.now);
    render_caution_routine(routine, Side::Right, wheel_leds, framestate.now);
    proof {
        assert forall|side: Side, j: int|
            0 <= j < old(wheel_leds).num_leds() implies #[trigger] wheel_leds.side_view(side)[j]
            == match caution_pixel(routine, side, framestate.now, old(wheel_leds).num_leds() as int, j) {
            Some(c) => c,
            None => old(wheel_leds).side_view(side)[j],
        } by {
            match side {
                Side::Left => {},
                Side::Right => {},
            }
        }
    }
}

/// The floodlight: grey, with full white on pixels 9 to 13.
pub open spec fn floodlight_pixel(led: int) -> RGB24 {
    if 9 <= led < 14 {
        (255u8, 255u8, 255u8)
    } else {
        (32u8, 32u8, 32u8)
    }
}

/// Draws the floodlight on both sides.
pub fn render_floodlight_mode(wheel_leds: &mut WheelLEDs, framestate: &FrameState)
    requires
        old(wheel_leds).wf(),
    ensures
        final(wheel_leds).wf(),
        final(wheel_leds).num_leds() == old(wheel_leds).num_leds(),
        forall|side: Side, j: int|
            0 <= j < old(wheel_leds).num_leds() ==> #[trigger] final(wheel_leds).side_view(side)[j]
                == floodlight_pixel(j),
{
    let n = wheel_leds.len();
    let mut s: usize = 0;
    proof {
        old(wheel_leds).lemma_wf_lengths();
    }
    while s < 2
        invariant
            wheel_leds.wf(),
            n == wheel_leds.num_leds(),
            n == old(wheel_leds).num_leds(),
            0 <= s <= 2,
            s >= 1 ==> forall|j: int| 0 <= j < n ==> #[trigger] wheel_leds.side_view(Side::Left)[j] == floodlight_pixel(j),
            s >= 2 ==> forall|j: int| 0 <= j < n ==> #[trigger] wheel_leds.side_view(Side::Right)[j] == floodlight_pixel(j),
        decreases 2 - s,
    {
        let side = if s == 0 {
            Side::Left
        } else {
            Side::Right
        };
        let mut led: usize = 0;
        proof {
            wheel_leds.lemma_wf_lengths();
        }
        let ghost before = *wheel_leds;
        while led < n
            invariant
                wheel_leds.wf(),
                n == wheel_leds.num_leds(),
                0 <= led <= n,
                wheel_leds.side_view(side).len() == n,
                forall|j: int| 0 <= j < led ==> #[trigger] wheel_leds.side_view(side)[j] == floodlight_pixel(j),
                wheel_leds.side_view(other_side(side)) == before.side_view(other_side(side)),
            decreases n - led,
        {
            proof {
                wheel_leds.lemma_wf_lengths();
            }
            let c: RGB24 = if 9 <= led && led < 14 {
                (255, 255, 255)
            } else {
                (32, 32, 32)
            };
            wheel_leds.set(side, led, c);
            led = led + 1;
        }
        s = s + 1;
    }
    proof {
        assert forall|side: Side, j: int| 0 <= j < n implies #[trigger] wheel_leds.side_view(side)[j]
            == floodlight_pixel(j) by {
            match side {
                Side::Left => {},
                Side::Right => {},
            }
        }
    }
}

} // verus!

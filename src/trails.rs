//! Modes whose state is a walk or a trail: a dot that wanders by single
//! steps, and pixels that are lit at random and fade.
use crate::dither::copy_to_side;
use crate::leds::{other_side, Side, WheelLEDs, RGB24};
use crate::random::random_below;
use crate::rotation::FrameState;
use vstd::prelude::*;

verus! {

/// The colour of the wandering dot.
pub const DOT_COLOUR: RGB24 = (255, 8, 0);

/// Full brightness of a hue trail, in thousandths.
pub const FULL_VALUE: u64 = 1000;

/// The position of a walker after a step with `choice`: 1 moves it out one
/// pixel and 2 in one pixel, unless that leaves the strip; anything else
/// keeps it in place.
pub open spec fn walk_step(pos: int, choice: int, n: int) -> int {
    if choice == 1 && pos < n - 1 {
        pos + 1
    } else if choice == 2 && pos > 0 {
        pos - 1
    } else {
        pos
    }
}

/// A dot that walks at random along the strip.
pub struct RandomWalkDot {
    /// The dot's pixel.
    pub led: usize,
    /// The number of pixels.
    pub leds: usize,
}

impl RandomWalkDot {
    pub open spec fn wf(&self) -> bool {
        self.led < self.leds
    }

    /// A dot in the middle of a strip of `leds` pixels.
    pub fn new(leds: usize) -> (r: RandomWalkDot)
        requires
            leds > 0,
        ensures
            r.wf(),
            r.leds == leds,
            r.led == leds / 2,
    {
        RandomWalkDot { led: leds / 2, leds }
    }

    /// One step of the walk with the given choice.
    pub fn step_with(&mut self, choice: usize)
        requires
            old(self).wf(),
        ensures
            final(self).wf(),
            final(self).leds == old(self).leds,
            final(self).led == walk_step(old(self).led as int, choice as int, old(self).leds as int),
    {
        if choice == 1 && self.led < self.leds - 1 {
            self.led = self.led + 1;
        } else if choice == 2 && self.led > 0 {
            self.led = self.led - 1;
        }
    }

    /// One step of the walk: out, in or stay, at random.
    pub fn step(&mut self, frame: &FrameState)
        requires
            old(self).wf(),
        ensures
            final(self).wf(),
            final(self).leds == old(self).leds,
            exists|choice: int|
                0 <= choice < 3 && final(self).led == walk_step(
                    old(self).led as int,
                    choice,
                    old(self).leds as int,
                ),
    {
        let choice = random_below(3);
        self.step_with(choice);
    }

    /// Shows the dot on one side, every other pixel dark.
    pub fn render(&self, side: Side, leds: &mut WheelLEDs)
        requires
            self.wf(),
            old(leds).wf(),
            self.leds <= old(leds).num_leds(),
        ensures
            final(leds).wf(),
            final(leds).num_leds() == old(leds).num_leds(),
            forall|j: int|
                0 <= j < self.leds ==> #[trigger] final(leds).side_view(side)[j] == (if j
                    == self.led {
                    DOT_COLOUR
                } else {
                    (0u8, 0u8, 0u8)
                }),
            forall|j: int|
                self.leds <= j < old(leds).num_leds() ==> #[trigger] final(leds).side_view(
                    side,
                )[j] == old(leds).side_view(side)[j],
            final(leds).side_view(other_side(side)) == old(leds).side_view(other_side(side)),
    {
        let mut colours: Vec<RGB24> = Vec::new();
        let mut i: usize = 0;
        while i < self.leds
            invariant
                0 <= i <= self.leds,
                colours@.len() == i,
                forall|j: int|
                    0 <= j < i ==> colours@[j] == (if j == self.led {
                        DOT_COLOUR
                    } else {
                        (0u8, 0u8, 0u8)
                    }),
            decreases self.leds - i,
        {
            if i == self.led {
                colours.push(DOT_COLOUR);
            } else {
                colours.push((0, 0, 0));
            }
            i = i + 1;
        }
        proof {
            old(leds).lemma_wf_lengths();
        }
        copy_to_side(&colours, side, leds);
    }
}

/// White trails: each step one pixel turns white or dark.
pub struct Trails {
    /// The colour of each pixel.
    pub leds: Vec<RGB24>,
}

impl Trails {
    /// A dark strip of `leds` pixels.
    pub fn new(leds: usize) -> (r: Trails)
        ensures
            r.leds@.len() == leds,
            forall|j: int| 0 <= j < leds ==> r.leds@[j] == (0u8, 0u8, 0u8),
    {
        let mut v: Vec<RGB24> = Vec::new();
        let mut i: usize = 0;
        while i < leds
            invariant
                0 <= i <= leds,
                v@.len() == i,
                forall|j: int| 0 <= j < i ==> v@[j] == (0u8, 0u8, 0u8),
            decreases leds - i,
        {
            v.push((0, 0, 0));
            i = i + 1;
        }
        Trails { leds: v }
    }

    /// Turns pixel `led` dark when `swiz` is zero, white otherwise.
    pub fn step_with(&mut self, led: usize, swiz: usize)
        requires
            led < old(self).leds@.len(),
        ensures
            final(self).leds@ == old(self).leds@.update(
                led as int,
                if swiz == 0 {
                    (0u8, 0u8, 0u8)
                } else {
                    (255u8, 255u8, 255u8)
                },
            ),
    {
        if swiz == 0 {
            self.leds.set(led, (0, 0, 0));
        } else {
            self.leds.set(led, (255, 255, 255));
        }
    }

    /// Turns a random pixel dark or white, at random.
    pub fn step(&mut self, frame: &FrameState)
        ensures
            final(self).leds@.len() == old(self).leds@.len(),
            old(self).leds@.len() == 0 ==> final(self).leds@ == old(self).leds@,
            old(self).leds@.len() > 0 ==> exists|led: int|
                0 <= led < old(self).leds@.len() && (final(self).leds@ == old(self).leds@.update(
                    led,
                    (0u8, 0u8, 0u8),
                ) || final(self).leds@ == old(self).leds@.update(led, (255u8, 255u8, 255u8))),
    {
        let n = self.leds.len();
        if n > 0 {
            let led = random_below(n);
            let swiz = random_below(2);
            self.step_with(led, swiz);
        }
    }

    /// Shows the trail on one side.
    pub fn render(&self, side: Side, leds: &mut WheelLEDs)
        requires
            old(leds).wf(),
            self.leds@.len() <= old(leds).num_leds(),
        ensures
            final(leds).wf(),
            final(leds).num_leds() == old(leds).num_leds(),
            final(leds).side_view(side) == self.leds@ + old(leds).side_view(side).subrange(
                self.leds@.len() as int,
                old(leds).num_leds() as int,
            ),
            final(leds).side_view(other_side(side)) == old(leds).side_view(other_side(side)),
    {
        copy_to_side(&self.leds, side, leds);
    }
}

/// A value after one step of fading: divided by 1.3, rounded down.
pub open spec fn faded(v: u64) -> u64 {
    (v as int * 10 / 13) as u64
}

/// The trail after one step: every brightness fades, then, if `hit`, pixel
/// `led` is lit at full brightness with hue `spin_pos`.
pub open spec fn hue_trails_after(leds: Seq<(u64, u64)>, hit: bool, led: int, spin_pos: u64) -> Seq<
    (u64, u64),
> {
    Seq::new(
        leds.len(),
        |j: int|
            if hit && j == led {
                (spin_pos, FULL_VALUE)
            } else {
                (leds[j].0, faded(leds[j].1))
            },
    )
}

/// Hue trails: each pixel holds a hue and a brightness, both in thousandths;
/// every step all brightnesses fade, and now and then one pixel is lit at
/// full brightness in the hue of the wheel's position.
pub struct HueTrails {
    /// On average one step in this many lights a pixel.
    pub trigger_denominator: usize,
    /// (hue, brightness) of each pixel.
    pub leds: Vec<(u64, u64)>,
}

impl HueTrails {
    /// A dark strip of `leds` pixels that lights one pixel on average every
    /// `trigger_denominator` steps.
    pub fn new(leds: usize, trigger_denominator: usize) -> (r: HueTrails)
        ensures
            r.trigger_denominator == trigger_denominator,
            r.leds@.len() == leds,
            forall|j: int| 0 <= j < leds ==> r.leds@[j] == (0u64, 0u64),
    {
        let mut v: Vec<(u64, u64)> = Vec::new();
        let mut i: usize = 0;
        while i < leds
            invariant
                0 <= i <= leds,
                v@.len() == i,
                forall|j: int| 0 <= j < i ==> v@[j] == (0u64, 0u64),
            decreases leds - i,
        {
            v.push((0, 0));
            i = i + 1;
        }
        HueTrails { trigger_denominator, leds: v }
    }

    /// Fades every pixel, then, if `hit`, lights pixel `led` at full
    /// brightness with hue `spin_pos`.
    pub fn step_with(&mut self, hit: bool, led: usize, spin_pos: u64)
        requires
            led < old(self).leds@.len(),
        ensures
            final(self).trigger_denominator == old(self).trigger_denominator,
            final(self).leds@ == hue_trails_after(old(self).leds@, hit, led as int, spin_pos),
    {
        let n = self.leds.len();
        let mut i: usize = 0;
        while i < n
            invariant
                0 <= i <= n,
                n == old(self).leds@.len(),
                self.leds@.len() == n,
                self.trigger_denominator == old(self).trigger_denominator,
                forall|j: int|
                    0 <= j < i ==> #[trigger] self.leds@[j] == (
                        old(self).leds@[j].0,
                        faded(old(self).leds@[j].1),
                    ),
                forall|j: int| i <= j < n ==> #[trigger] self.leds@[j] == old(self).leds@[j],
            decreases n - i,
        {
            let (h, v) = self.leds[i];
            self.leds.set(i, (h, v / 13 * 10 + v % 13 * 10 / 13));
            proof {
                assert(v / 13 * 10 + v % 13 * 10 / 13 == (v as int * 10 / 13)) by (nonlinear_arith);
            }
            i = i + 1;
        }
        if hit {
            self.leds.set(led, (spin_pos, FULL_VALUE));
        }
        assert(self.leds@ =~= hue_trails_after(old(self).leds@, hit, led as int, spin_pos));
    }

    /// Fades every pixel and, one step in `trigger_denominator` on average,
    /// lights a random pixel in the hue of the frame's spin position.
    pub fn step(&mut self, frame: &FrameState)
        requires
            old(self).trigger_denominator > 0,
        ensures
            final(self).trigger_denominator == old(self).trigger_denominator,
            old(self).leds@.len() == 0 ==> final(self).leds@ == old(self).leds@,
            old(self).leds@.len() > 0 ==> exists|hit: bool, led: int|
                0 <= led < old(self).leds@.len() && final(self).leds@ == #[trigger] hue_trails_after(
                    old(self).leds@,
                    hit,
                    led,
                    frame.spin_pos,
                ),
            old(self).leds@.len() > 0 && old(self).trigger_denominator == 1 ==> exists|led: int|
                0 <= led < old(self).leds@.len() && final(self).leds@ == #[trigger] hue_trails_after(
                    old(self).leds@,
                    true,
                    led,
                    frame.spin_pos,
                ),
    {
        let n = self.leds.len();
        if n > 0 {
            let hit = random_below(self.trigger_denominator) == 0;
            let led = random_below(n);
            self.step_with(hit, led, frame.spin_pos);
        }
    }
}

/// A dot in the middle of `leds` pixels.
pub fn create_random_walk_dot(leds: usize) -> (r: RandomWalkDot)
    requires
        leds > 0,
    ensures
        r.wf(),
        r.leds == leds,
        r.led == leds / 2,
{
    RandomWalkDot::new(leds)
}

/// White trails over `leds` dark pixels.
pub fn construct_white_trails(leds: usize) -> (r: Trails)
    ensures
        r.leds@.len() == leds,
        forall|j: int| 0 <= j < leds ==> r.leds@[j] == (0u8, 0u8, 0u8),
{
    Trails::new(leds)
}

/// Hue trails that light a pixel every step.
pub fn construct_hue_trails(leds: usize) -> (r: HueTrails)
    ensures
        r.trigger_denominator == 1,
        r.leds@.len() == leds,
        forall|j: int| 0 <= j < leds ==> r.leds@[j] == (0u64, 0u64),
{
    HueTrails::new(leds, 1)
}

/// Hue trails that light a pixel one step in five on average.
pub fn construct_hue_trails_sparse(leds: usize) -> (r: HueTrails)
    ensures
        r.trigger_denominator == 5,
        r.leds@.len() == leds,
        forall|j: int| 0 <= j < leds ==> r.leds@[j] == (0u64, 0u64),
{
    HueTrails::new(leds, 5)
}

} // verus!

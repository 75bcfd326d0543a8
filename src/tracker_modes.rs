//! Modes driven by the wheel's position from frame to frame: a strobe on
//! each new rotation, a dot that steps out once per rotation, and a dot that
//! chases a target radius one pixel per frame.
use crate::dither::copy_to_side;
use crate::leds::{other_side, Side, WheelLEDs, RGB24};
use crate::modes::Mode;
use crate::rotation::{FrameState, SPIN_UNIT};
use vstd::prelude::*;

verus! {

pub const STROBE_COLOUR: RGB24 = (255, 64, 0);

pub const STEPPER_COLOUR: RGB24 = (255, 128, 0);

pub const TRACKER_COLOUR: RGB24 = (255, 8, 0);

/// `n` pixels, dark but for the one at `dot`, which shows `on`.
pub open spec fn dot_pattern(n: int, dot: int, on: RGB24) -> Seq<RGB24> {
    Seq::new(n as nat, |j: int| if j == dot { on } else { (0u8, 0u8, 0u8) })
}

pub(crate) fn dot_colours(n: usize, dot: usize, on: RGB24) -> (r: Vec<RGB24>)
    ensures
        r@ == dot_pattern(n as int, dot as int, on),
{
    let mut v: Vec<RGB24> = Vec::new();
    let mut i: usize = 0;
    while i < n
        invariant
            0 <= i <= n,
            v@ == dot_pattern(i as int, dot as int, on),
        decreases n - i,
    {
        if i == dot {
            v.push(on);
        } else {
            v.push((0, 0, 0));
        }
        i = i + 1;
        assert(v@ =~= dot_pattern(i as int, dot as int, on));
    }
    v
}

/// Lights the whole side on the first frame of each rotation, when the
/// position has gone back past the last pulse.
pub struct EdgeStrobe {
    /// The spin position of the previous frame.
    pub last_spin_pos: u64,
}

impl EdgeStrobe {
    /// The colour of the whole side for `frame`.
    pub open spec fn colour_for(&self, frame: FrameState) -> RGB24 {
        if frame.spin_pos < self.last_spin_pos {
            STROBE_COLOUR
        } else {
            (0u8, 0u8, 0u8)
        }
    }

    /// A strobe that has seen no frame.
    pub fn new() -> (r: EdgeStrobe)
        ensures
            r.last_spin_pos == 0,
    {
        EdgeStrobe { last_spin_pos: 0 }
    }

    /// Fills one side with the strobe colour on a new rotation, black
    /// otherwise.
    pub fn render_side(&self, side: Side, leds: &mut WheelLEDs, frame: &FrameState)
        requires
            old(leds).wf(),
        ensures
            final(leds).wf(),
            final(leds).num_leds() == old(leds).num_leds(),
            final(leds).side_view(side) == Seq::new(
                old(leds).num_leds(),
                |j: int| self.colour_for(*frame),
            ),
            final(leds).side_view(other_side(side)) == old(leds).side_view(other_side(side)),
    {
        let colour = if frame.spin_pos < self.last_spin_pos {
            STROBE_COLOUR
        } else {
            (0, 0, 0)
        };
        let n = leds.len();
        let mut v: Vec<RGB24> = Vec::new();
        let mut i: usize = 0;
        while i < n
            invariant
                0 <= i <= n,
                v@ == Seq::new(i as nat, |j: int| colour),
            decreases n - i,
        {
            v.push(colour);
            i = i + 1;
            assert(v@ =~= Seq::new(i as nat, |j: int| colour));
        }
        proof {
            old(leds).lemma_wf_lengths();
        }
        copy_to_side(&v, side, leds);
        assert(leds.side_view(side) =~= Seq::new(old(leds).num_leds(), |j: int| self.colour_for(*frame)));
    }
}

impl Mode for EdgeStrobe {
    fn render(&self, side: Side, leds: &mut WheelLEDs, frame: &FrameState) {
        if leds.is_wf() {
            self.render_side(side, leds, frame);
        }
    }

    fn step(&mut self, frame: &FrameState) {
        self.last_spin_pos = frame.spin_pos;
    }
}

/// A dot that moves out one pixel per rotation, wrapping back to the
/// centre.
pub struct Stepper {
    /// The dot's pixel.
    pub radius: usize,
    /// The number of pixels.
    pub leds: usize,
    /// The spin position of the previous frame.
    pub last_spin_pos: u64,
}

impl Stepper {
    pub open spec fn wf(&self) -> bool {
        self.radius < self.leds
    }

    /// A dot at the centre of a strip of `leds` pixels.
    pub fn new(leds: usize) -> (r: Stepper)
        requires
            leds > 0,
        ensures
            r.wf(),
            r.radius == 0,
            r.leds == leds,
            r.last_spin_pos == 0,
    {
        Stepper { radius: 0, leds, last_spin_pos: 0 }
    }

    /// Moves the dot out when a new rotation has begun, and remembers the
    /// position.
    pub fn step_frame(&mut self, frame: &FrameState)
        requires
            old(self).wf(),
        ensures
            final(self).wf(),
            final(self).leds == old(self).leds,
            final(self).last_spin_pos == frame.spin_pos,
            final(self).radius == (if frame.spin_pos < old(self).last_spin_pos {
                ((old(self).radius + 1) % (old(self).leds as int)) as usize
            } else {
                old(self).radius
            }),
    {
        if frame.spin_pos < self.last_spin_pos {
            self.radius = (self.radius + 1) % self.leds;
        }
        self.last_spin_pos = frame.spin_pos;
    }

    /// Shows the dot on one side.
    pub fn render_side(&self, side: Side, leds: &mut WheelLEDs)
        requires
            self.wf(),
            old(leds).wf(),
            self.leds <= old(leds).num_leds(),
        ensures
            final(leds).wf(),
            final(leds).num_leds() == old(leds).num_leds(),
            final(leds).side_view(side) == dot_pattern(self.leds as int, self.radius as int, STEPPER_COLOUR)
                + old(leds).side_view(side).subrange(self.leds as int, old(leds).num_leds() as int),
            final(leds).side_view(other_side(side)) == old(leds).side_view(other_side(side)),
    {
        let v = dot_colours(self.leds, self.radius, STEPPER_COLOUR);
        copy_to_side(&v, side, leds);
    }
}

impl Mode for Stepper {
    fn render(&self, side: Side, leds: &mut WheelLEDs, frame: &FrameState) {
        if self.radius < self.leds && leds.is_wf() && self.leds <= leds.len() {
            self.render_side(side, leds);
        }
    }

    fn step(&mut self, frame: &FrameState) {
        if self.radius < self.leds {
            self.step_frame(frame);
        }
    }
}

/// The radius a line tracker chases.
#[derive(PartialEq, Eq, Structural, Copy, Clone, Debug)]
pub enum TrackTarget {
    /// Out from the centre as the rotation proceeds.
    SpiralOut,
    /// Between the centre and the rim, three times a rotation.
    SquarewaveFlower,
    /// Between two thirds out and the rim, three times a rotation.
    Squarewave,
}

/// The pixel, out of `n`, that `target` aims at for spin position `pos`,
/// held to the last pixel.
pub open spec fn target_radius(target: TrackTarget, pos: u64, n: int) -> int {
    let raw = match target {
        TrackTarget::SpiralOut => pos * n / (SPIN_UNIT as int),
        TrackTarget::SquarewaveFlower => if (pos * 3) % 1000 > 500 {
            n
        } else {
            0
        },
        TrackTarget::Squarewave => if (pos * 3) % 1000 > 500 {
            n
        } else {
            n * 2 / 3
        },
    };
    if raw > n - 1 {
        n - 1
    } else {
        raw
    }
}

/// A dot that moves one pixel per frame towards a target radius.
pub struct LineTracker {
    /// The dot's pixel.
    pub led: usize,
    /// The number of pixels.
    pub leds: usize,
    /// What the dot chases.
    pub target: TrackTarget,
}

impl LineTracker {
    pub open spec fn wf(&self) -> bool {
        self.led < self.leds
    }

    /// A tracker in the middle of a strip of `leds` pixels.
    pub fn new(leds: usize, target: TrackTarget) -> (r: LineTracker)
        requires
            leds > 0,
        ensures
            r.wf(),
            r.led == leds / 2,
            r.leds == leds,
            r.target == target,
    {
        LineTracker { led: leds / 2, leds, target }
    }

    /// The target pixel for spin position `pos`.
    pub fn target_for(&self, pos: u64) -> (r: usize)
        requires
            self.leds > 0,
        ensures
            r == target_radius(self.target, pos, self.leds as int),
    {
        let n = self.leds as u128;
        let p = pos as u128;
        let raw: u128 = match self.target {
            TrackTarget::SpiralOut => {
                assert(p * n <= u64::MAX * u64::MAX) by (nonlinear_arith)
                    requires
                        p <= u64::MAX,
                        n <= u64::MAX,
                ;
                p * n / 1000
            },
            TrackTarget::SquarewaveFlower => if (p * 3) % 1000 > 500 {
                n
            } else {
                0
            },
            TrackTarget::Squarewave => if (p * 3) % 1000 > 500 {
                n
            } else {
                n * 2 / 3
            },
        };
        if raw > n - 1 {
            self.leds - 1
        } else {
            raw as usize
        }
    }

    /// Moves the dot one pixel towards the frame's target.
    pub fn step_frame(&mut self, frame: &FrameState)
        requires
            old(self).wf(),
        ensures
            final(self).wf(),
            final(self).leds == old(self).leds,
            final(self).target == old(self).target,
            ({
                let t = target_radius(old(self).target, frame.spin_pos, old(self).leds as int);
                final(self).led == (if t > old(self).led {
                    old(self).led + 1
                } else if t < old(self).led {
                    old(self).led - 1
                } else {
                    old(self).led as int
                })
            }),
    {
        let t = self.target_for(frame.spin_pos);
        if t > self.led {
            self.led = self.led + 1;
        } else if t < self.led {
            self.led = self.led - 1;
        }
    }

    /// Shows the dot on one side.
    pub fn render_side(&self, side: Side, leds: &mut WheelLEDs)
        requires
            self.wf(),
            old(leds).wf(),
            self.leds <= old(leds).num_leds(),
        ensures
            final(leds).wf(),
            final(leds).num_leds() == old(leds).num_leds(),
            final(leds).side_view(side) == dot_pattern(self.leds as int, self.led as int, TRACKER_COLOUR)
                + old(leds).side_view(side).subrange(self.leds as int, old(leds).num_leds() as int),
            final(leds).side_view(other_side(side)) == old(leds).side_view(other_side(side)),
    {
        let v = dot_colours(self.leds, self.led, TRACKER_COLOUR);
        copy_to_side(&v, side, leds);
    }
}

impl Mode for LineTracker {
    fn render(&self, side: Side, leds: &mut WheelLEDs, frame: &FrameState) {
        if self.led < self.leds && leds.is_wf() && self.leds <= leds.len() {
            self.render_side(side, leds);
        }
    }

    fn step(&mut self, frame: &FrameState) {
        if self.led < self.leds {
            self.step_frame(frame);
        }
    }
}

/// A strobe that has seen no frame.
pub fn construct_edge_strobe() -> (r: EdgeStrobe)
    ensures
        r.last_spin_pos == 0,
{
    EdgeStrobe::new()
}

/// A stepper at the centre of `leds` pixels.
pub fn construct_stepper(leds: usize) -> (r: Stepper)
    requires
        leds > 0,
    ensures
        r.wf(),
        r.radius == 0,
        r.leds == leds,
        r.last_spin_pos == 0,
{
    Stepper::new(leds)
}

/// A tracker that spirals out with the rotation.
pub fn construct_spiral_out(leds: usize) -> (r: LineTracker)
    requires
        leds > 0,
    ensures
        r.wf(),
        r.led == leds / 2,
        r.leds == leds,
        r.target == TrackTarget::SpiralOut,
{
    LineTracker::new(leds, TrackTarget::SpiralOut)
}

/// A tracker that swings between centre and rim three times a rotation.
pub fn construct_squarewave_flower(leds: usize) -> (r: LineTracker)
    requires
        leds > 0,
    ensures
        r.wf(),
        r.led == leds / 2,
        r.leds == leds,
        r.target == TrackTarget::SquarewaveFlower,
{
    LineTracker::new(leds, TrackTarget::SquarewaveFlower)
}

/// A tracker that swings between two thirds out and the rim three times a
/// rotation.
pub fn construct_squarewave(leds: usize) -> (r: LineTracker)
    requires
        leds > 0,
    ensures
        r.wf(),
        r.led == leds / 2,
        r.leds == leds,
        r.target == TrackTarget::Squarewave,
{
    LineTracker::new(leds, TrackTarget::Squarewave)
}

} // verus!

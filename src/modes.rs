//! The interface the main loop drives every rendering mode through, and its
//! implementations for the stateful modes of this library.
use crate::cellular::CellularState;
use crate::dither::Dither;
use crate::leds::{other_side, Side, WheelLEDs};
use crate::rotation::FrameState;
use crate::trails::{RandomWalkDot, Trails};
use crate::walks::FloatSpray;
use vstd::prelude::*;

verus! {

/// A rendering mode. On every frame the main loop calls `pre_step`, then
/// `render` once for each side with the same frame state, then `step`.
/// A mode whose state does not fit the buffer leaves it as it is.
pub trait Mode {
    /// Draws the frame on one side: a well-formed buffer stays well formed,
    /// keeps its size, and its other side is untouched.
    fn render(&self, side: Side, leds: &mut WheelLEDs, frame: &FrameState)
        ensures
            old(leds).wf() ==> final(leds).wf(),
            old(leds).wf() ==> final(leds).num_leds() == old(leds).num_leds(),
            old(leds).wf() ==> final(leds).side_view(other_side(side)) == old(leds).side_view(
                other_side(side),
            ),
    ;

    /// Runs before the render calls of a frame.
    fn pre_step(&mut self, frame: &FrameState) {
    }

    /// Runs after the render calls of a frame.
    fn step(&mut self, frame: &FrameState) {
    }
}

impl Mode for Dither {
    fn render(&self, side: Side, leds: &mut WheelLEDs, frame: &FrameState) {
        if self.is_wf() && leds.is_wf() && self.rgb.len() <= leds.len() {
            Dither::render(self, side, leds);
        }
    }

    fn pre_step(&mut self, frame: &FrameState) {
        if self.is_wf() {
            Dither::pre_step(self, frame);
        }
    }

    fn step(&mut self, frame: &FrameState) {
        if self.is_wf() {
            Dither::step(self);
        }
    }
}

impl Mode for CellularState {
    fn render(&self, side: Side, leds: &mut WheelLEDs, frame: &FrameState) {
        if leds.is_wf() && self.cells.len() <= leds.len() {
            self.render_leds(side, leds);
        }
    }

    fn step(&mut self, frame: &FrameState) {
        CellularState::step(self, frame);
    }
}

impl Mode for Trails {
    fn render(&self, side: Side, leds: &mut WheelLEDs, frame: &FrameState) {
        if leds.is_wf() && self.leds.len() <= leds.len() {
            Trails::render(self, side, leds);
        }
    }

    fn step(&mut self, frame: &FrameState) {
        Trails::step(self, frame);
    }
}

impl Mode for RandomWalkDot {
    fn render(&self, side: Side, leds: &mut WheelLEDs, frame: &FrameState) {
        if self.led < self.leds && leds.is_wf() && self.leds <= leds.len() {
            RandomWalkDot::render(self, side, leds);
        }
    }

    fn step(&mut self, frame: &FrameState) {
        if self.led < self.leds {
            RandomWalkDot::step(self, frame);
        }
    }
}

impl Mode for FloatSpray {
    fn render(&self, side: Side, leds: &mut WheelLEDs, frame: &FrameState) {
        if self.is_wf() && leds.is_wf() && self.leds.len() <= leds.len() {
            FloatSpray::render(self, side, leds);
        }
    }

    fn step(&mut self, frame: &FrameState) {
        if self.is_wf() {
            FloatSpray::step(self, frame);
        }
    }
}

} // verus!

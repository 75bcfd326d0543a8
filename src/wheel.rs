//! The decisions of the main loop: from the sensor and button events of one
//! iteration to the frame state and the display path to take.
use crate::jumble::jumble_step;
use crate::rotation::{spin_pos_of, FrameState, RotationTracker};
use crate::schedule::{switch_deadline, ModeScheduler, StoppedMode};
use vstd::prelude::*;

verus! {

/// What the main loop renders on one iteration.
#[derive(PartialEq, Eq, Structural, Copy, Clone, Debug)]
pub enum FrameAction {
    /// The wheel is stopped: show this family of stopped displays.
    Stopped(StoppedMode),
    /// The wheel is turning: run the live mode, first replacing it with the
    /// catalog entry given, if any.
    Live(Option<usize>),
}

/// The state the main loop carries from one iteration to the next.
pub struct WheelState {
    /// The last two magnet pulses.
    pub tracker: RotationTracker,
    /// The stopped-display family the button has selected.
    pub floodlight: StoppedMode,
    /// The live-mode rotation.
    pub scheduler: ModeScheduler,
    /// The number of the next frame.
    pub loop_counter: u32,
    /// A mode was fixed at start: always render it live and never switch.
    pub forced_mode: bool,
}

impl WheelState {
    pub open spec fn wf(&self) -> bool {
        self.tracker.wf()
    }

    /// The state at start, over a catalog of `catalog_len` live modes.
    pub fn new(catalog_len: usize, forced_mode: bool) -> (r: WheelState)
        ensures
            r.wf(),
            r.tracker.last_pulse == 0,
            r.tracker.previous_pulse == 0,
            r.tracker.pulses == 0,
            r.floodlight == StoppedMode::StoppedCaution,
            r.loop_counter == 0,
            r.forced_mode == forced_mode,
            r.scheduler.next_switch_time == 0,
            r.scheduler.queue().len() == catalog_len,
    {
        WheelState {
            tracker: RotationTracker::new(),
            floodlight: StoppedMode::StoppedCaution,
            scheduler: ModeScheduler::new(catalog_len),
            loop_counter: 0,
            forced_mode,
        }
    }

    /// One iteration at `now`, after polling the magnet and the button:
    /// records a pulse, advances the button's family, computes the frame
    /// state, picks the stopped or live path, and on the live path lets the
    /// scheduler switch modes when due.
    pub fn advance(&mut self, now: u64, magnet_pulsed: bool, button_pulsed: bool) -> (r: (
        FrameState,
        FrameAction,
    ))
        requires
            old(self).wf(),
            old(self).tracker.last_pulse <= now,
        ensures
            final(self).wf(),
            final(self).forced_mode == old(self).forced_mode,
            magnet_pulsed ==> final(self).tracker.last_pulse == now
                && final(self).tracker.previous_pulse == old(self).tracker.last_pulse
                && final(self).tracker.pulses == (if old(self).tracker.pulses >= 2 {
                2
            } else {
                old(self).tracker.pulses + 1
            }),
            !magnet_pulsed ==> final(self).tracker == old(self).tracker,
            final(self).floodlight == (if button_pulsed {
                old(self).floodlight.next_spec()
            } else {
                old(self).floodlight
            }),
            final(self).loop_counter == (if old(self).loop_counter == u32::MAX {
                0
            } else {
                old(self).loop_counter + 1
            }),
            r.0.now == now,
            r.0.loop_counter == old(self).loop_counter,
            r.0.spin_length == final(self).tracker.length_spec(),
            r.0.spin_pos == spin_pos_of(
                now - final(self).tracker.last_pulse,
                final(self).tracker.length_spec(),
            ),
            ({
                let stopped = final(self).tracker.stopped_spec(now);
                &&& (stopped && !old(self).forced_mode) ==> r.1 == FrameAction::Stopped(
                    final(self).floodlight,
                ) && final(self).scheduler == old(self).scheduler
                &&& old(self).forced_mode ==> r.1 == FrameAction::Live(None) && final(self).scheduler
                    == old(self).scheduler
                &&& (!stopped && !old(self).forced_mode && old(self).scheduler.next_switch_time
                    > now) ==> r.1 == FrameAction::Live(None) && final(self).scheduler == old(
                    self,
                ).scheduler
                &&& (!stopped && !old(self).forced_mode && old(self).scheduler.next_switch_time
                    <= now) ==> final(self).scheduler.next_switch_time == switch_deadline(now) && (
                old(self).scheduler.queue().len() < 2 ==> r.1 == FrameAction::Live(None)) && (
                old(self).scheduler.queue().len() >= 2 ==> exists|i: int|
                    0 <= i < old(self).scheduler.queue().len() / 2 && r.1 == FrameAction::Live(
                        Some(old(self).scheduler.queue()[i]),
                    ) && final(self).scheduler.queue() == jumble_step(
                        old(self).scheduler.queue(),
                        i,
                    ))
            }),
    {
        if magnet_pulsed {
            self.tracker.pulse(now);
        }
        if button_pulsed {
            self.floodlight = self.floodlight.next();
        }
        let frame = self.tracker.frame(now, self.loop_counter);
        let stopped = self.tracker.is_stopped(now);
        let action = if self.forced_mode {
            FrameAction::Live(None)
        } else if stopped {
            FrameAction::Stopped(self.floodlight)
        } else {
            FrameAction::Live(self.scheduler.live_frame(now))
        };
        self.loop_counter = self.loop_counter.wrapping_add(1);
        (frame, action)
    }
}

} // verus!

//! Rotation tracking: from magnet pulse times to a per-frame estimate of the
//! wheel's position and speed. All times are milliseconds since start.
use vstd::prelude::*;

verus! {

/// Above this many milliseconds without a full rotation, the wheel counts as
/// stopped.
pub const STOP_TIME_MS: u64 = 2000;

/// One full rotation, in the units of `FrameState::spin_pos`.
pub const SPIN_UNIT: u64 = 1000;

/// A FrameState contains information about the position and timing of
/// the bike wheel useful for rendering a frame.
#[derive(Clone, Copy, Debug)]
pub struct FrameState {
    /// Milliseconds since the program started.
    pub now: u64,
    /// A count of the frames rendered, wrapping at `u32::MAX`.
    pub loop_counter: u32,
    /// An estimate of the wheel's position, in thousandths of a rotation
    /// since the last pulse. This goes above `SPIN_UNIT` when the wheel is
    /// slowing down.
    pub spin_pos: u64,
    /// How long the last full rotation took, in milliseconds.
    pub spin_length: u64,
}

/// The position estimate: time since the last pulse over the length of the
/// last rotation (at least one millisecond), in thousandths, saturating at
/// `u64::MAX`.
pub open spec fn spin_pos_of(since_last: int, spin_length: int) -> int {
    let q = (since_last * SPIN_UNIT) / (if spin_length < 1 { 1 } else { spin_length });
    if q > u64::MAX {
        u64::MAX as int
    } else {
        q
    }
}

/// The time that decides between stopped and live display.
pub open spec fn mode_duration_of(since_last: int, spin_length: int) -> int {
    if since_last > spin_length {
        since_last
    } else {
        spin_length
    }
}

/// The wheel counts as stopped when the mode duration is zero or above the
/// threshold.
pub open spec fn stopped_for(mode_duration: int) -> bool {
    mode_duration > STOP_TIME_MS || mode_duration == 0
}

/// The times of the last two magnet pulses, and how many pulses have been
/// seen, counted up to two. Before any pulse both times are the start
/// time, 0.
#[derive(Clone, Copy, Debug)]
pub struct RotationTracker {
    /// The time of the most recent pulse.
    pub last_pulse: u64,
    /// The time of the pulse before it.
    pub previous_pulse: u64,
    /// The number of pulses seen, held at 2 once two have come.
    pub pulses: u8,
}

impl RotationTracker {
    /// Pulses come in time order, and the count stops at two.
    pub open spec fn wf(&self) -> bool {
        self.previous_pulse <= self.last_pulse && self.pulses <= 2
    }

    /// The length of the last full rotation: zero until two pulses have
    /// been seen.
    pub open spec fn length_spec(&self) -> int {
        if self.pulses >= 2 {
            self.last_pulse - self.previous_pulse
        } else {
            0
        }
    }

    /// Whether the wheel counts as stopped at `now`: always before the
    /// second pulse, and afterwards when the mode duration is zero or above
    /// the threshold.
    pub open spec fn stopped_spec(&self, now: u64) -> bool {
        self.pulses < 2 || stopped_for(mode_duration_of(now - self.last_pulse, self.length_spec()))
    }

    /// The tracker of a wheel that has not pulsed yet.
    pub fn new() -> (r: RotationTracker)
        ensures
            r.wf(),
            r.last_pulse == 0,
            r.previous_pulse == 0,
            r.pulses == 0,
    {
        RotationTracker { last_pulse: 0, previous_pulse: 0, pulses: 0 }
    }

    /// Records a pulse seen at `now`.
    pub fn pulse(&mut self, now: u64)
        requires
            old(self).wf(),
            old(self).last_pulse <= now,
        ensures
            final(self).wf(),
            final(self).previous_pulse == old(self).last_pulse,
            final(self).last_pulse == now,
            final(self).pulses == (if old(self).pulses >= 2 {
                2
            } else {
                old(self).pulses + 1
            }),
    {
        self.previous_pulse = self.last_pulse;
        self.last_pulse = now;
        if self.pulses < 2 {
            self.pulses = self.pulses + 1;
        }
    }

    /// The duration of the last full rotation; zero until two pulses have
    /// been seen.
    pub fn spin_length(&self) -> (r: u64)
        requires
            self.wf(),
        ensures
            r == self.length_spec(),
    {
        if self.pulses >= 2 {
            self.last_pulse - self.previous_pulse
        } else {
            0
        }
    }

    /// The time since the last pulse.
    pub fn since_last(&self, now: u64) -> (r: u64)
        requires
            self.last_pulse <= now,
        ensures
            r == now - self.last_pulse,
    {
        now - self.last_pulse
    }

    /// The larger of the time since the last pulse and the last rotation's
    /// length.
    pub fn mode_duration(&self, now: u64) -> (r: u64)
        requires
            self.wf(),
            self.last_pulse <= now,
        ensures
            r == mode_duration_of(now - self.last_pulse, self.length_spec()),
    {
        let since = self.since_last(now);
        let length = self.spin_length();
        if since > length {
            since
        } else {
            length
        }
    }

    /// Whether the wheel counts as stopped at `now`.
    pub fn is_stopped(&self, now: u64) -> (r: bool)
        requires
            self.wf(),
            self.last_pulse <= now,
        ensures
            r == self.stopped_spec(now),
    {
        if self.pulses < 2 {
            return true;
        }
        let d = self.mode_duration(now);
        d > STOP_TIME_MS || d == 0
    }

    /// The position estimate at `now`, in thousandths of a rotation.
    pub fn spin_pos(&self, now: u64) -> (r: u64)
        requires
            self.wf(),
            self.last_pulse <= now,
        ensures
            r == spin_pos_of(now - self.last_pulse, self.length_spec()),
    {
        let since = self.since_last(now) as u128;
        let length = self.spin_length();
        let divisor: u128 = if length < 1 {
            1
        } else {
            length as u128
        };
        assert(since * 1000 <= u64::MAX * 1000) by (nonlinear_arith)
            requires
                since <= u64::MAX,
        ;
        let q = since * 1000 / divisor;
        if q > u64::MAX as u128 {
            u64::MAX
        } else {
            q as u64
        }
    }

    /// The state of frame number `loop_counter`, rendered at `now`.
    pub fn frame(&self, now: u64, loop_counter: u32) -> (r: FrameState)
        requires
            self.wf(),
            self.last_pulse <= now,
        ensures
            r.now == now,
            r.loop_counter == loop_counter,
            r.spin_length == self.length_spec(),
            r.spin_pos == spin_pos_of(now - self.last_pulse, self.length_spec()),
    {
        FrameState {
            now,
            loop_counter,
            spin_pos: self.spin_pos(now),
            spin_length: self.spin_length(),
        }
    }
}

/// With the last rotation `length` milliseconds long, a sample `since`
/// milliseconds after the last pulse reads `since * 1000 / length`
/// thousandths of a rotation, and the wheel is live as long as neither span
/// exceeds the threshold.
pub proof fn lemma_regular_pulses(length: u64, since: u64)
    requires
        0 < length <= STOP_TIME_MS,
        since <= STOP_TIME_MS,
    ensures
        spin_pos_of(since as int, length as int) == since * SPIN_UNIT / (length as int),
        !stopped_for(mode_duration_of(since as int, length as int)),
{
    assert(since * 1000 / length as int <= since * 1000) by (nonlinear_arith)
        requires
            length >= 1,
            since >= 0,
    ;
}

/// Until a second pulse arrives the rotation length is zero and the wheel
/// counts as stopped, whenever it is sampled.
pub proof fn lemma_single_pulse(tr: RotationTracker, now: u64)
    requires
        tr.wf(),
        tr.pulses < 2,
        tr.last_pulse <= now,
    ensures
        tr.length_spec() == 0,
        tr.stopped_spec(now),
{
}

/// Once two pulses have come, the wheel is live exactly while neither the
/// time since the last pulse nor the last rotation exceeds the threshold,
/// and not both are zero.
pub proof fn lemma_live_after_two_pulses(tr: RotationTracker, now: u64)
    requires
        tr.wf(),
        tr.pulses == 2,
        tr.last_pulse <= now,
    ensures
        !tr.stopped_spec(now) <==> (now - tr.last_pulse <= STOP_TIME_MS && tr.last_pulse
            - tr.previous_pulse <= STOP_TIME_MS && (now - tr.last_pulse > 0 || tr.last_pulse
            - tr.previous_pulse > 0)),
{
}

} // verus!

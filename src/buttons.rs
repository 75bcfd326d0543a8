//! The push button's debounce rule: a press counts only if more than a
//! second has passed since the last press that counted.
use vstd::prelude::*;

verus! {

/// The quiet time after a counted press, in milliseconds.
pub const DEBOUNCE_MS: u64 = 1000;

/// When the last counted press (or the start) was.
#[derive(Clone, Copy, Debug)]
pub struct Debounce {
    /// Milliseconds since start of the last counted press.
    pub debounce_start: u64,
}

impl Debounce {
    /// A debouncer whose quiet time starts at `now`.
    pub fn new(now: u64) -> (r: Debounce)
        ensures
            r.debounce_start == now,
    {
        Debounce { debounce_start: now }
    }

    /// Whether an edge seen at `now` counts as a press; a counted press
    /// starts a new quiet time.
    pub fn pulsed(&mut self, now: u64, edge: bool) -> (r: bool)
        requires
            old(self).debounce_start <= now,
        ensures
            r == (edge && now - old(self).debounce_start > DEBOUNCE_MS),
            final(self).debounce_start == (if r {
                now
            } else {
                old(self).debounce_start
            }),
    {
        if edge && now - self.debounce_start > DEBOUNCE_MS {
            self.debounce_start = now;
            true
        } else {
            false
        }
    }
}

} // verus!

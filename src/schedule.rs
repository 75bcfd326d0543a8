//! Which display runs: the timed rotation of live modes, and the cycle of
//! stopped-display families chosen with the push button.
use crate::jumble::{jumble_step, Jumbler};
use vstd::prelude::*;

verus! {

/// How long a live mode runs before the next one replaces it.
pub const MODE_CHANGE_MS: u64 = 20_000;

/// How long each stopped-display routine runs before the next one.
pub const STOPPED_CHANGE_MS: u64 = 60_000;

/// The family of displays shown while the wheel is stopped.
#[derive(PartialEq, Eq, Structural, Copy, Clone, Debug)]
pub enum StoppedMode {
    StoppedCaution,
    StoppedWhite,
    StoppedChill,
}

impl StoppedMode {
    /// The family after this one in the button's cycle.
    pub open spec fn next_spec(self) -> StoppedMode {
        match self {
            StoppedMode::StoppedCaution => StoppedMode::StoppedWhite,
            StoppedMode::StoppedWhite => StoppedMode::StoppedChill,
            StoppedMode::StoppedChill => StoppedMode::StoppedCaution,
        }
    }

    /// The family after this one in the button's cycle.
    pub fn next(&self) -> (r: StoppedMode)
        ensures
            r == self.next_spec(),
    {
        match self {
            StoppedMode::StoppedCaution => StoppedMode::StoppedWhite,
            StoppedMode::StoppedWhite => StoppedMode::StoppedChill,
            StoppedMode::StoppedChill => StoppedMode::StoppedCaution,
        }
    }
}

/// Three presses of the button bring back the family it started from.
pub proof fn lemma_button_cycle(m: StoppedMode)
    ensures
        m.next_spec().next_spec().next_spec() == m,
        m.next_spec() != m,
{
}

/// The routine, out of `count`, that a stopped display shows at `now`:
/// each runs for a minute, in turn.
pub open spec fn stopped_routine_spec(now: u64, count: u64) -> u64 {
    ((now as int / 1000 / 60) % (count as int)) as u64
}

/// The routine, out of `count`, that a stopped display shows at `now`.
pub fn stopped_routine(now: u64, count: u64) -> (r: u64)
    requires
        count > 0,
    ensures
        r == stopped_routine_spec(now, count),
        r < count,
{
    now / 1000 / 60 % count
}

/// The time of the next mode change after a change at `now`.
pub open spec fn switch_deadline(now: u64) -> u64 {
    if now + MODE_CHANGE_MS > u64::MAX {
        u64::MAX
    } else {
        (now + MODE_CHANGE_MS) as u64
    }
}

/// Runs the live modes, by their position in a catalog, in a jumbled cycle.
pub struct ModeScheduler {
    /// When the running mode is replaced.
    pub next_switch_time: u64,
    /// The modes still to come, as catalog positions.
    pub jumbler: Jumbler<usize>,
}

impl ModeScheduler {
    /// The order in which modes come up, as catalog positions.
    pub open spec fn queue(&self) -> Seq<usize> {
        self.jumbler@
    }

    /// A scheduler over a catalog of `catalog_len` modes, in shuffled order,
    /// due to switch on the first live frame.
    pub fn new(catalog_len: usize) -> (r: ModeScheduler)
        ensures
            r.next_switch_time == 0,
            r.queue().len() == catalog_len,
            forall|i: usize| i < catalog_len ==> #[trigger] r.queue().contains(i),
    {
        let mut entries: Vec<usize> = Vec::new();
        let mut i: usize = 0;
        while i < catalog_len
            invariant
                0 <= i <= catalog_len,
                entries@.len() == i,
                forall|j: int| 0 <= j < i ==> entries@[j] == j as usize,
            decreases catalog_len - i,
        {
            entries.push(i);
            i = i + 1;
        }
        let ghost before = entries@;
        let jumbler = Jumbler::new(entries);
        proof {
            assert forall|j: usize| j < catalog_len implies #[trigger] jumbler@.contains(j) by {
                assert(before[j as int] == j);
                before.to_multiset_ensures();
                jumbler@.to_multiset_ensures();
                assert(before.to_multiset().count(j) > 0);
            }
            jumbler@.to_multiset_ensures();
            before.to_multiset_ensures();
        }
        ModeScheduler { next_switch_time: 0, jumbler }
    }

    /// Whether the running mode is due to be replaced at `now`.
    pub fn switch_due(&self, now: u64) -> (r: bool)
        ensures
            r == (self.next_switch_time <= now),
    {
        self.next_switch_time <= now
    }

    /// On a live frame at `now`: when a switch is due, draws the next mode
    /// from the first half of the queue and sets the next switch one period
    /// later; otherwise changes nothing.
    pub fn live_frame(&mut self, now: u64) -> (r: Option<usize>)
        ensures
            old(self).next_switch_time > now ==> r.is_none() && *final(self) == *old(self),
            old(self).next_switch_time <= now ==> final(self).next_switch_time == switch_deadline(
                now,
            ),
            old(self).next_switch_time <= now && old(self).queue().len() < 2 ==> r.is_none()
                && final(self).queue() == old(self).queue(),
            old(self).next_switch_time <= now && old(self).queue().len() >= 2 ==> exists|i: int|
                0 <= i < old(self).queue().len() / 2 && r == Some(old(self).queue()[i])
                    && final(self).queue() == jumble_step(old(self).queue(), i),
    {
        if self.next_switch_time <= now {
            let r = self.jumbler.next();
            self.next_switch_time = now.saturating_add(MODE_CHANGE_MS);
            r
        } else {
            None
        }
    }
}

/// After a switch at `t`, the next one comes at the first frame at or after
/// `t` plus one period, and none before it.
pub proof fn lemma_switch_once_per_period(t: u64, now: u64)
    requires
        t + MODE_CHANGE_MS <= u64::MAX,
    ensures
        now < t + MODE_CHANGE_MS ==> !(switch_deadline(t) <= now),
        now >= t + MODE_CHANGE_MS ==> switch_deadline(t) <= now,
{
}

} // verus!

//! A one-dimensional circular cellular automaton shown along one side.
use crate::leds::{other_side, Side, WheelLEDs, RGB24};
use crate::random::{choose_byte, random_below};
use crate::rotation::FrameState;
use vstd::prelude::*;

verus! {

/// Rule numbers that look good on a turning wheel.
pub const PRETTY_AUTOMATA: [u8; 4] = [18, 73, 105, 146];

/// The automaton steps this many times per rotation.
pub const STEPS_PER_ROTATION: u64 = 128;

/// Bit `bit` of the rule number.
pub open spec fn rule_bit(rule: u8, bit: u8) -> bool {
    ((rule >> bit) & 1u8) == 1u8
}

/// The neighbourhood of cell `i` as a number from 0 to 7: bit 0 is the cell
/// below (towards the centre, wrapping round), bit 1 the cell itself, bit 2
/// the cell above (wrapping round).
pub open spec fn neighbourhood(cells: Seq<bool>, i: int) -> u8 {
    let n = cells.len() as int;
    let down = if i < 1 {
        cells[n - 1]
    } else {
        cells[i - 1]
    };
    let up = if i >= n - 1 {
        cells[0]
    } else {
        cells[i + 1]
    };
    ((if down {
        1u8
    } else {
        0u8
    }) + (if cells[i] {
        2u8
    } else {
        0u8
    }) + (if up {
        4u8
    } else {
        0u8
    })) as u8
}

/// The cells one generation later under `rule`.
pub open spec fn next_generation(cells: Seq<bool>, rule: u8) -> Seq<bool> {
    Seq::new(cells.len(), |i: int| rule_bit(rule, neighbourhood(cells, i)))
}

/// The colour shown for a cell.
pub open spec fn cell_colour(alive: bool, rgb: RGB24) -> RGB24 {
    if alive {
        rgb
    } else {
        (0u8, 0u8, 0u8)
    }
}

/// The automaton: its rule, its colour, its cells, and when it last stepped.
pub struct CellularState {
    /// The rule number: bit `k` gives the next state of a cell whose
    /// neighbourhood is `k`.
    pub automata_number: u8,
    /// The colour of live cells.
    pub rgb: RGB24,
    /// One cell per pixel, centre first.
    pub cells: Vec<bool>,
    /// The time of the last step, in milliseconds.
    pub last_now: u64,
}

impl CellularState {
    /// An automaton with the given rule, colour and cells.
    pub fn new(automata_number: u8, rgb: RGB24, cells: Vec<bool>) -> (r: CellularState)
        ensures
            r.automata_number == automata_number,
            r.rgb == rgb,
            r.cells@ == cells@,
            r.last_now == 0,
    {
        CellularState { automata_number, rgb, cells, last_now: 0 }
    }

    /// Advances every cell one generation.
    pub fn step_cells(&mut self)
        ensures
            final(self).cells@ == next_generation(old(self).cells@, old(self).automata_number),
            final(self).automata_number == old(self).automata_number,
            final(self).rgb == old(self).rgb,
            final(self).last_now == old(self).last_now,
    {
        let n = self.cells.len();
        let ghost cells = self.cells@;
        let mut new_cells: Vec<bool> = Vec::new();
        let mut cell: usize = 0;
        while cell < n
            invariant
                n == cells.len(),
                cells == self.cells@,
                0 <= cell <= n,
                new_cells@.len() == cell,
                forall|j: int|
                    0 <= j < cell ==> new_cells@[j] == rule_bit(
                        self.automata_number,
                        neighbourhood(cells, j),
                    ),
            decreases n - cell,
        {
            let downcell = if cell < 1 {
                self.cells[n - 1]
            } else {
                self.cells[cell - 1]
            };
            let upcell = if cell >= n - 1 {
                self.cells[0]
            } else {
                self.cells[cell + 1]
            };
            let mut bit: u8 = 0;
            if downcell {
                bit = bit + 1;
            }
            if self.cells[cell] {
                bit = bit + 2;
            }
            if upcell {
                bit = bit + 4;
            }
            assert(bit == neighbourhood(cells, cell as int));
            let new_state = (self.automata_number >> bit) & 1u8;
            new_cells.push(new_state == 1);
            cell = cell + 1;
        }
        assert(new_cells@ =~= next_generation(cells, self.automata_number));
        self.cells = new_cells;
    }

    /// Shows the cells on one side: live cells in the automaton's colour,
    /// the others dark.
    pub fn render_leds(&self, side: Side, leds: &mut WheelLEDs)
        requires
            old(leds).wf(),
            self.cells@.len() <= old(leds).num_leds(),
        ensures
            final(leds).wf(),
            final(leds).num_leds() == old(leds).num_leds(),
            forall|j: int|
                0 <= j < self.cells@.len() ==> #[trigger] final(leds).side_view(side)[j]
                    == cell_colour(self.cells@[j], self.rgb),
            forall|j: int|
                self.cells@.len() <= j < old(leds).num_leds() ==> #[trigger] final(leds).side_view(
                    side,
                )[j] == old(leds).side_view(side)[j],
            final(leds).side_view(other_side(side)) == old(leds).side_view(other_side(side)),
    {
        let n = self.cells.len();
        let mut led: usize = 0;
        proof {
            old(leds).lemma_wf_lengths();
        }
        while led < n
            invariant
                leds.wf(),
                leds.num_leds() == old(leds).num_leds(),
                n == self.cells@.len(),
                n <= leds.num_leds(),
                0 <= led <= n,
                leds.side_view(side).len() == old(leds).side_view(side).len(),
                old(leds).side_view(side).len() == old(leds).num_leds(),
                forall|j: int|
                    0 <= j < led ==> #[trigger] leds.side_view(side)[j] == cell_colour(
                        self.cells@[j],
                        self.rgb,
                    ),
                forall|j: int|
                    led <= j < leds.num_leds() ==> #[trigger] leds.side_view(side)[j] == old(
                        leds,
                    ).side_view(side)[j],
                leds.side_view(other_side(side)) == old(leds).side_view(other_side(side)),
            decreases n - led,
        {
            proof {
                leds.lemma_wf_lengths();
            }
            let colour = if self.cells[led] {
                self.rgb
            } else {
                (0, 0, 0)
            };
            leds.set(side, led, colour);
            led = led + 1;
        }
    }

    /// Advances the automaton once a 128th of the last rotation has passed
    /// since its last step.
    pub fn step(&mut self, frame: &FrameState)
        ensures
            final(self).automata_number == old(self).automata_number,
            final(self).rgb == old(self).rgb,
            frame.now > step_due(old(self).last_now, frame.spin_length) ==> final(self).cells@
                == next_generation(old(self).cells@, old(self).automata_number)
                && final(self).last_now == frame.now,
            frame.now <= step_due(old(self).last_now, frame.spin_length) ==> *final(self) == *old(
                self,
            ),
    {
        let timestep = frame.spin_length / STEPS_PER_ROTATION;
        let next_now = self.last_now.saturating_add(timestep);
        if frame.now > next_now {
            self.step_cells();
            self.last_now = frame.now;
        }
    }
}

/// The time after which the automaton steps again.
pub open spec fn step_due(last_now: u64, spin_length: u64) -> u64 {
    let t = last_now as int + spin_length as int / (STEPS_PER_ROTATION as int);
    if t > u64::MAX {
        u64::MAX
    } else {
        t as u64
    }
}

/// An automaton over `leds` random cells, with a rule drawn from the pretty
/// ones and the given colour.
pub fn construct_cellular(leds: usize, rgb: RGB24) -> (r: CellularState)
    ensures
        r.cells@.len() == leds,
        PRETTY_AUTOMATA@.contains(r.automata_number),
        r.rgb == rgb,
        r.last_now == 0,
{
    let mut cells: Vec<bool> = Vec::new();
    let mut n: usize = 0;
    while n < leds
        invariant
            0 <= n <= leds,
            cells@.len() == n,
        decreases leds - n,
    {
        let r = random_below(2);
        cells.push(r == 1);
        n = n + 1;
    }
    let options = PRETTY_AUTOMATA;
    let a_n = match choose_byte(options.as_slice()) {
        Some(x) => x,
        None => 18,
    };
    CellularState::new(a_n, rgb, cells)
}

} // verus!

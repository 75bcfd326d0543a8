//! More random walks and sprays: a lightning dot that restarts in a new hue
//! when it leaves the strip, a spray that scrolls towards the centre, and
//! pixels that switch on and off in borrowed or fresh hues. Hues and
//! brightnesses are in thousandths.
use crate::dither::copy_to_side;
use crate::leds::{other_side, Side, WheelLEDs, RGB24};
use crate::random::random_below;
use crate::rotation::FrameState;
use crate::tracker_modes::{dot_colours, dot_pattern};
use vstd::prelude::*;

verus! {

/// A dot that walks from the middle and, on stepping off either end,
/// restarts in the middle with a new hue.
pub struct Lightning {
    /// The dot's pixel.
    pub led: usize,
    /// The number of pixels.
    pub leds: usize,
    /// The dot's hue.
    pub hue: u64,
}

impl Lightning {
    pub open spec fn wf(&self) -> bool {
        self.led < self.leds
    }

    /// The (pixel, hue) after a step with `choice`: 1 out, 2 in; a step off
    /// the strip restarts the dot in the middle with hue `new_hue`.
    pub open spec fn after_step(&self, choice: int, new_hue: u64) -> (int, u64) {
        let n = self.leds as int;
        let l = self.led as int;
        if choice == 1 && l < n - 1 {
            (l + 1, self.hue)
        } else if choice == 2 && l > 0 {
            (l - 1, self.hue)
        } else if choice == 1 || choice == 2 {
            (n / 2, new_hue)
        } else {
            (l, self.hue)
        }
    }

    /// A dot in the middle of `leds` pixels, with hue 0.
    pub fn new(leds: usize) -> (r: Lightning)
        requires
            leds > 0,
        ensures
            r.wf(),
            r.led == leds / 2,
            r.leds == leds,
            r.hue == 0,
    {
        Lightning { led: leds / 2, leds, hue: 0 }
    }

    /// One step with `choice`: 1 out, 2 in; a step off the strip restarts
    /// the dot in the middle with hue `new_hue`.
    pub fn step_with(&mut self, choice: usize, new_hue: u64)
        requires
            old(self).wf(),
        ensures
            final(self).wf(),
            final(self).leds == old(self).leds,
            (final(self).led as int, final(self).hue) == old(self).after_step(choice as int, new_hue),
    {
        if choice == 1 && self.led < self.leds - 1 {
            self.led = self.led + 1;
        } else if choice == 2 && self.led > 0 {
            self.led = self.led - 1;
        } else if choice == 1 || choice == 2 {
            self.led = self.leds / 2;
            self.hue = new_hue;
        }
    }

    /// One random step, drawing the hue for a restart at random.
    pub fn step(&mut self, frame: &FrameState)
        requires
            old(self).wf(),
        ensures
            final(self).wf(),
            final(self).leds == old(self).leds,
            exists|choice: int, new_hue: u64|
                0 <= choice < 3 && new_hue < 1000 && (final(self).led as int, final(self).hue)
                    == #[trigger] old(self).after_step(choice, new_hue),
    {
        let choice = random_below(3);
        let new_hue = random_below(1000) as u64;
        self.step_with(choice, new_hue);
    }

    /// Shows the dot in `colour` on one side, every other pixel dark.
    pub fn render_with(&self, side: Side, leds: &mut WheelLEDs, colour: RGB24)
        requires
            self.wf(),
            old(leds).wf(),
            self.leds <= old(leds).num_leds(),
        ensures
            final(leds).wf(),
            final(leds).num_leds() == old(leds).num_leds(),
            final(leds).side_view(side) == dot_pattern(self.leds as int, self.led as int, colour)
                + old(leds).side_view(side).subrange(self.leds as int, old(leds).num_leds() as int),
            final(leds).side_view(other_side(side)) == old(leds).side_view(other_side(side)),
    {
        let v = dot_colours(self.leds, self.led, colour);
        copy_to_side(&v, side, leds);
    }
}

/// The red of a spray value: its cube, scaled to 255 and rounded down.
pub open spec fn spray_red(v: u64) -> u8 {
    (v * v * v * 255 / 1_000_000_000) as u8
}

/// Values that scroll one pixel towards the centre every step, with a new
/// value entering at the rim.
pub struct FloatSpray {
    /// One value per pixel, below 1000.
    pub leds: Vec<u64>,
}

impl FloatSpray {
    pub open spec fn wf(&self) -> bool {
        forall|j: int| 0 <= j < self.leds@.len() ==> #[trigger] self.leds@[j] < 1000
    }

    /// Whether every value is below 1000.
    pub fn is_wf(&self) -> (r: bool)
        ensures
            r == self.wf(),
    {
        let n = self.leds.len();
        let mut i: usize = 0;
        while i < n
            invariant
                0 <= i <= n,
                n == self.leds@.len(),
                forall|j: int| 0 <= j < i ==> #[trigger] self.leds@[j] < 1000,
            decreases n - i,
        {
            if self.leds[i] >= 1000 {
                return false;
            }
            i = i + 1;
        }
        true
    }

    /// A dark spray over `leds` pixels.
    pub fn new(leds: usize) -> (r: FloatSpray)
        ensures
            r.wf(),
            r.leds@ == Seq::new(leds as nat, |j: int| 0u64),
    {
        let mut v: Vec<u64> = Vec::new();
        let mut i: usize = 0;
        while i < leds
            invariant
                0 <= i <= leds,
                v@ == Seq::new(i as nat, |j: int| 0u64),
            decreases leds - i,
        {
            v.push(0);
            i = i + 1;
            assert(v@ =~= Seq::new(i as nat, |j: int| 0u64));
        }
        FloatSpray { leds: v }
    }

    /// Scrolls every value one pixel in and puts `value` at the rim.
    pub fn step_with(&mut self, value: u64)
        requires
            old(self).wf(),
            value < 1000,
        ensures
            final(self).wf(),
            old(self).leds@.len() == 0 ==> final(self).leds@ == old(self).leds@,
            old(self).leds@.len() > 0 ==> final(self).leds@ == old(self).leds@.drop_first().push(
                value,
            ),
    {
        let n = self.leds.len();
        if n > 0 {
            let mut led: usize = 0;
            while led < n - 1
                invariant
                    n == self.leds@.len(),
                    n == old(self).leds@.len(),
                    0 <= led <= n - 1,
                    forall|j: int| 0 <= j < led ==> #[trigger] self.leds@[j] == old(self).leds@[j + 1],
                    forall|j: int| led <= j < n ==> #[trigger] self.leds@[j] == old(self).leds@[j],
                    old(self).wf(),
                decreases n - 1 - led,
            {
                let v = self.leds[led + 1];
                self.leds.set(led, v);
                led = led + 1;
            }
            self.leds.set(n - 1, value);
            assert(self.leds@ =~= old(self).leds@.drop_first().push(value));
        }
    }

    /// Scrolls in a random value.
    pub fn step(&mut self, frame: &FrameState)
        requires
            old(self).wf(),
        ensures
            final(self).wf(),
            old(self).leds@.len() > 0 ==> final(self).leds@.drop_last() == old(
                self,
            ).leds@.drop_first(),
            final(self).leds@.len() == old(self).leds@.len(),
    {
        let value = random_below(1000) as u64;
        self.step_with(value);
        proof {
            if old(self).leds@.len() > 0 {
                assert(self.leds@.drop_last() =~= old(self).leds@.drop_first());
            }
        }
    }

    /// Shows the values on one side in red, brightness the cube of the value.
    pub fn render(&self, side: Side, leds: &mut WheelLEDs)
        requires
            self.wf(),
            old(leds).wf(),
            self.leds@.len() <= old(leds).num_leds(),
        ensures
            final(leds).wf(),
            final(leds).num_leds() == old(leds).num_leds(),
            forall|j: int|
                0 <= j < self.leds@.len() ==> #[trigger] final(leds).side_view(side)[j] == (
                    spray_red(self.leds@[j]),
                    0u8,
                    0u8,
                ),
            final(leds).side_view(other_side(side)) == old(leds).side_view(other_side(side)),
    {
        let n = self.leds.len();
        let mut colours: Vec<RGB24> = Vec::new();
        let mut i: usize = 0;
        while i < n
            invariant
                0 <= i <= n,
                n == self.leds@.len(),
                self.wf(),
                colours@.len() == i,
                forall|j: int| 0 <= j < i ==> #[trigger] colours@[j] == (spray_red(self.leds@[j]), 0u8, 0u8),
            decreases n - i,
        {
            let v = self.leds[i];
            assert(v * v <= 999 * 999 && v * v * v <= 999 * 999 * 999 && v * v * v * 255
                / 1_000_000_000 < 256) by (nonlinear_arith)
                requires
                    v < 1000,
            ;
            colours.push(((v * v * v * 255 / 1_000_000_000) as u8, 0, 0));
            i = i + 1;
        }
        proof {
            old(leds).lemma_wf_lengths();
        }
        copy_to_side(&colours, side, leds);
    }
}

/// Pixels that are on in a hue, or off.
pub struct RainbowOnOff {
    /// (on, hue) for each pixel.
    pub colours: Vec<(bool, u64)>,
}

/// Whether a pixel is on.
pub open spec fn fst_spec(c: (bool, u64)) -> bool {
    c.0
}

/// A pixel's hue.
pub open spec fn snd_spec(c: (bool, u64)) -> u64 {
    c.1
}

/// Whether a pixel is on.
pub fn fst(c: (bool, u64)) -> (r: bool)
    ensures
        r == fst_spec(c),
{
    c.0
}

/// A pixel's hue.
pub fn snd(c: (bool, u64)) -> (r: u64)
    ensures
        r == snd_spec(c),
{
    c.1
}

/// The pixels after acting on pixel `led` with `action` and fresh hue
/// `new_hue`: action 0 turns it off; any other turns it on, in the hue of the
/// pixel below it if that one is on, else in `new_hue`.
pub open spec fn on_off_after(colours: Seq<(bool, u64)>, led: int, action: int, new_hue: u64) -> Seq<
    (bool, u64),
> {
    colours.update(
        led,
        if action == 0 {
            (false, 0u64)
        } else if led > 0 && fst_spec(colours[led - 1]) {
            (true, snd_spec(colours[led - 1]))
        } else {
            (true, new_hue)
        },
    )
}

impl RainbowOnOff {
    /// `leds` pixels, all off.
    pub fn new(leds: usize) -> (r: RainbowOnOff)
        ensures
            r.colours@ == Seq::new(leds as nat, |j: int| (false, 0u64)),
    {
        let mut v: Vec<(bool, u64)> = Vec::new();
        let mut i: usize = 0;
        while i < leds
            invariant
                0 <= i <= leds,
                v@ == Seq::new(i as nat, |j: int| (false, 0u64)),
            decreases leds - i,
        {
            v.push((false, 0));
            i = i + 1;
            assert(v@ =~= Seq::new(i as nat, |j: int| (false, 0u64)));
        }
        RainbowOnOff { colours: v }
    }

    /// Action 0 turns pixel `led` off; any other turns it on, in the hue of
    /// the pixel below it if that one is on, else in `new_hue`.
    pub fn step_with(&mut self, led: usize, action: usize, new_hue: u64)
        requires
            led < old(self).colours@.len(),
        ensures
            final(self).colours@ == on_off_after(old(self).colours@, led as int, action as int, new_hue),
    {
        if action == 0 {
            self.colours.set(led, (false, 0));
        } else {
            let hue = if led > 0 && fst(self.colours[led - 1]) {
                snd(self.colours[led - 1])
            } else {
                new_hue
            };
            self.colours.set(led, (true, hue));
        }
    }

    /// Acts on a random pixel: one time in five it goes off.
    pub fn step(&mut self, frame: &FrameState)
        ensures
            old(self).colours@.len() == 0 ==> final(self).colours@ == old(self).colours@,
            old(self).colours@.len() > 0 ==> exists|led: int, action: int, new_hue: u64|
                0 <= led < old(self).colours@.len() && 0 <= action < 5 && new_hue < 1000
                    && final(self).colours@ == #[trigger] on_off_after(
                    old(self).colours@,
                    led,
                    action,
                    new_hue,
                ),
    {
        let n = self.colours.len();
        if n > 0 {
            let led = random_below(n);
            let action = random_below(5);
            let new_hue = random_below(1000) as u64;
            self.step_with(led, action, new_hue);
        }
    }

    /// Shows the pixels on one side: those on in the colour `colours` gives
    /// for them, the others dark.
    pub fn render_with(&self, side: Side, leds: &mut WheelLEDs, colours: &Vec<RGB24>)
        requires
            old(leds).wf(),
            colours@.len() == self.colours@.len(),
            self.colours@.len() <= old(leds).num_leds(),
        ensures
            final(leds).wf(),
            final(leds).num_leds() == old(leds).num_leds(),
            forall|j: int|
                0 <= j < self.colours@.len() ==> #[trigger] final(leds).side_view(side)[j] == (if self.colours@[j].0 {
                    colours@[j]
                } else {
                    (0u8, 0u8, 0u8)
                }),
            final(leds).side_view(other_side(side)) == old(leds).side_view(other_side(side)),
    {
        let n = self.colours.len();
        let mut shown: Vec<RGB24> = Vec::new();
        let mut i: usize = 0;
        while i < n
            invariant
                0 <= i <= n,
                n == self.colours@.len(),
                n == colours@.len(),
                shown@.len() == i,
                forall|j: int|
                    0 <= j < i ==> #[trigger] shown@[j] == (if self.colours@[j].0 {
                        colours@[j]
                    } else {
                        (0u8, 0u8, 0u8)
                    }),
            decreases n - i,
        {
            if self.colours[i].0 {
                shown.push(colours[i]);
            } else {
                shown.push((0, 0, 0));
            }
            i = i + 1;
        }
        proof {
            old(leds).lemma_wf_lengths();
        }
        copy_to_side(&shown, side, leds);
    }
}

/// Whether a lit cell at `led` with draw `c` (hundredths, below 333) lights
/// cell `j` in the next generation: below 100 it moves out, below 200 in,
/// below 300 it stays, below 330 it forks to both neighbours if neither is
/// lit, and above that it goes out. A move off the strip falls through to
/// the next rule.
pub open spec fn fork_sets(cells: Seq<bool>, c: int, led: int, j: int) -> bool {
    let n = cells.len() as int;
    if c < 100 && led < n - 1 {
        j == led + 1
    } else if c < 200 && led > 0 {
        j == led - 1
    } else if c < 300 {
        j == led
    } else if c < 330 && 0 < led < n - 1 {
        if !cells[led - 1] && !cells[led + 1] {
            j == led + 1 || j == led - 1
        } else {
            j == led
        }
    } else {
        false
    }
}

/// Whether any lit cell below `upto` lights cell `j`.
pub open spec fn fork_lit_by(cells: Seq<bool>, choices: Seq<u64>, upto: int, j: int) -> bool {
    exists|led: int|
        0 <= led < upto && cells[led] && #[trigger] fork_sets(cells, choices[led] as int, led, j)
}

/// The next generation of forked lightning, before a restart.
pub open spec fn fork_spread(cells: Seq<bool>, choices: Seq<u64>) -> Seq<bool> {
    Seq::new(cells.len(), |j: int| fork_lit_by(cells, choices, cells.len() as int, j))
}

/// The cells and hue after one generation with `choices`, restarting in the
/// middle with `new_hue` when nothing is left lit.
pub open spec fn fork_after(cells: Seq<bool>, hue: u64, choices: Seq<u64>, new_hue: u64) -> (
    Seq<bool>,
    u64,
) {
    let spread = fork_spread(cells, choices);
    let n = cells.len() as int;
    if n > 0 && forall|j: int| 0 <= j < n ==> !#[trigger] spread[j] {
        (spread.update(n / 2, true), new_hue)
    } else {
        (spread, hue)
    }
}

/// Lightning that wanders, forks and dies out, restarting in the middle in a
/// new hue when no cell is left.
pub struct ForkLightning {
    /// Which cells are lit.
    pub leds: Vec<bool>,
    /// The hue of the lit cells.
    pub hue: u64,
}

impl ForkLightning {
    /// `leds` dark cells, hue 0.
    pub fn new(leds: usize) -> (r: ForkLightning)
        ensures
            r.leds@ == Seq::new(leds as nat, |j: int| false),
            r.hue == 0,
    {
        let mut v: Vec<bool> = Vec::new();
        let mut i: usize = 0;
        while i < leds
            invariant
                0 <= i <= leds,
                v@ == Seq::new(i as nat, |j: int| false),
            decreases leds - i,
        {
            v.push(false);
            i = i + 1;
            assert(v@ =~= Seq::new(i as nat, |j: int| false));
        }
        ForkLightning { leds: v, hue: 0 }
    }

    /// One generation, with draw `choices[i]` for cell `i`; if nothing is
    /// lit afterwards, the middle cell lights with hue `new_hue`.
    pub fn step_with(&mut self, choices: &Vec<u64>, new_hue: u64)
        requires
            choices@.len() == old(self).leds@.len(),
        ensures
            (final(self).leds@, final(self).hue) == fork_after(
                old(self).leds@,
                old(self).hue,
                choices@,
                new_hue,
            ),
    {
        let n = self.leds.len();
        let ghost cells = self.leds@;
        let mut newleds: Vec<bool> = Vec::new();
        let mut i: usize = 0;
        while i < n
            invariant
                0 <= i <= n,
                newleds@.len() == i,
                forall|j: int| 0 <= j < i ==> !newleds@[j],
            decreases n - i,
        {
            newleds.push(false);
            i = i + 1;
        }
        let mut led: usize = 0;
        while led < n
            invariant
                0 <= led <= n,
                n == cells.len(),
                n == choices@.len(),
                cells == self.leds@,
                newleds@.len() == n,
                forall|j: int|
                    0 <= j < n ==> #[trigger] newleds@[j] == fork_lit_by(cells, choices@, led as int, j),
            decreases n - led,
        {
            let ghost before = newleds@;
            if self.leds[led] {
                let choice = choices[led];
                if choice < 100 && led + 1 < n {
                    newleds.set(led + 1, true);
                } else if choice < 200 && led > 0 {
                    newleds.set(led - 1, true);
                } else if choice < 300 {
                    newleds.set(led, true);
                } else if choice < 330 && led + 1 < n && led > 0 {
                    if !self.leds[led - 1] && !self.leds[led + 1] {
                        newleds.set(led + 1, true);
                        newleds.set(led - 1, true);
                    } else {
                        newleds.set(led, true);
                    }
                }
            }
            proof {
                assert forall|j: int| 0 <= j < n implies #[trigger] newleds@[j] == fork_lit_by(
                    cells,
                    choices@,
                    led + 1,
                    j,
                ) by {
                    let here = cells[led as int] && fork_sets(cells, choices@[led as int] as int, led as int, j);
                    assert(newleds@[j] == (before[j] || here));
                    if here {
                        assert(fork_lit_by(cells, choices@, led + 1, j));
                    }
                    if fork_lit_by(cells, choices@, led + 1, j) && !here {
                        let w = choose|w: int|
                            0 <= w < led + 1 && cells[w] && #[trigger] fork_sets(cells, choices@[w] as int, w, j);
                        assert(w < led);
                        assert(fork_lit_by(cells, choices@, led as int, j));
                    }
                }
            }
            led = led + 1;
        }
        assert(newleds@ =~= fork_spread(cells, choices@));
        let mut alive = false;
        let mut k: usize = 0;
        while k < n
            invariant
                0 <= k <= n,
                newleds@.len() == n,
                alive == exists|j: int| 0 <= j < k && #[trigger] newleds@[j],
            decreases n - k,
        {
            if newleds[k] {
                alive = true;
            }
            k = k + 1;
        }
        if !alive && n > 0 {
            newleds.set(n / 2, true);
            self.hue = new_hue;
        }
        self.leds = newleds;
    }

    /// One generation with random draws and, on a restart, a random hue.
    pub fn step(&mut self, frame: &FrameState)
        ensures
            exists|choices: Seq<u64>, new_hue: u64|
                choices.len() == old(self).leds@.len() && (forall|i: int|
                    0 <= i < choices.len() ==> #[trigger] choices[i] < 333) && new_hue < 1000 && (
                final(self).leds@,
                final(self).hue,
            ) == #[trigger] fork_after(old(self).leds@, old(self).hue, choices, new_hue),
    {
        let n = self.leds.len();
        let mut choices: Vec<u64> = Vec::new();
        let mut i: usize = 0;
        while i < n
            invariant
                0 <= i <= n,
                choices@.len() == i,
                forall|k: int| 0 <= k < i ==> #[trigger] choices@[k] < 333,
            decreases n - i,
        {
            choices.push(random_below(333) as u64);
            i = i + 1;
        }
        let new_hue = random_below(1000) as u64;
        self.step_with(&choices, new_hue);
    }

    /// Shows the lit cells in `colour` on one side, the others dark.
    pub fn render_with(&self, side: Side, leds: &mut WheelLEDs, colour: RGB24)
        requires
            old(leds).wf(),
            self.leds@.len() <= old(leds).num_leds(),
        ensures
            final(leds).wf(),
            final(leds).num_leds() == old(leds).num_leds(),
            forall|j: int|
                0 <= j < self.leds@.len() ==> #[trigger] final(leds).side_view(side)[j] == (if self.leds@[j] {
                    colour
                } else {
                    (0u8, 0u8, 0u8)
                }),
            final(leds).side_view(other_side(side)) == old(leds).side_view(other_side(side)),
    {
        let n = self.leds.len();
        let mut shown: Vec<RGB24> = Vec::new();
        let mut i: usize = 0;
        while i < n
            invariant
                0 <= i <= n,
                n == self.leds@.len(),
                shown@.len() == i,
                forall|j: int|
                    0 <= j < i ==> #[trigger] shown@[j] == (if self.leds@[j] {
                        colour
                    } else {
                        (0u8, 0u8, 0u8)
                    }),
            decreases n - i,
        {
            if self.leds[i] {
                shown.push(colour);
            } else {
                shown.push((0, 0, 0));
            }
            i = i + 1;
        }
        proof {
            old(leds).lemma_wf_lengths();
        }
        copy_to_side(&shown, side, leds);
    }
}

/// A lightning dot in the middle of `leds` pixels.
pub fn create_lightning(leds: usize) -> (r: Lightning)
    requires
        leds > 0,
    ensures
        r.wf(),
        r.led == leds / 2,
        r.leds == leds,
        r.hue == 0,
{
    Lightning::new(leds)
}

/// Forked lightning over `leds` dark cells; the first step restarts it.
pub fn create_fork_lightning(leds: usize) -> (r: ForkLightning)
    ensures
        r.leds@ == Seq::new(leds as nat, |j: int| false),
        r.hue == 0,
{
    ForkLightning::new(leds)
}

/// A dark spray over `leds` pixels.
pub fn create_float_spray(leds: usize) -> (r: FloatSpray)
    ensures
        r.wf(),
        r.leds@ == Seq::new(leds as nat, |j: int| 0u64),
{
    FloatSpray::new(leds)
}

/// `leds` pixels, all off.
pub fn construct_rainbow_on_off(leds: usize) -> (r: RainbowOnOff)
    ensures
        r.colours@ == Seq::new(leds as nat, |j: int| (false, 0u64)),
{
    RainbowOnOff::new(leds)
}

} // verus!

//! Blobs: random cells that flip over time, shown after smoothing each cell
//! towards the majority of its neighbourhood until the picture settles.
use crate::dither::copy_to_side;
use crate::leds::{other_side, Side, WheelLEDs, RGB24};
use crate::modes::Mode;
use crate::random::random_below;
use crate::rotation::FrameState;
use vstd::prelude::*;

verus! {

pub const BLOB_COLOUR: RGB24 = (255, 0, 0);

/// One round of smoothing: an inner cell is set when at least two of
/// itself and its neighbours are; the end cells are cleared.
pub open spec fn smooth_once(c: Seq<bool>) -> Seq<bool> {
    Seq::new(
        c.len(),
        |j: int|
            if 1 <= j < c.len() - 1 {
                (if c[j - 1] {
                    1int
                } else {
                    0
                }) + (if c[j] {
                    1int
                } else {
                    0
                }) + (if c[j + 1] {
                    1int
                } else {
                    0
                }) >= 2
            } else {
                false
            },
    )
}

/// `k` rounds of smoothing.
#[verifier::opaque]
pub open spec fn smooth_iter(c: Seq<bool>, k: nat) -> Seq<bool>
    decreases k,
{
    if k == 0 {
        c
    } else {
        smooth_once(smooth_iter(c, (k - 1) as nat))
    }
}

proof fn lemma_smooth_len(c: Seq<bool>, k: nat)
    ensures
        smooth_iter(c, k).len() == c.len(),
    decreases k,
{
    reveal(smooth_iter);
    if k > 0 {
        lemma_smooth_len(c, (k - 1) as nat);
    }
}

proof fn lemma_smooth_step(c: Seq<bool>, k: nat)
    ensures
        smooth_iter(c, 0) == c,
        smooth_iter(c, k + 1) == smooth_once(smooth_iter(c, k)),
{
    reveal(smooth_iter);
}

/// The inner cells of `a` and `b` agree.
#[verifier::opaque]
pub open spec fn inner_same(a: Seq<bool>, b: Seq<bool>) -> bool {
    forall|j: int| 1 <= j < a.len() - 1 ==> a[j] == b[j]
}

/// The most rounds of smoothing: one per cell, and at least one.
pub open spec fn round_cap(n: nat) -> nat {
    if n == 0 {
        1
    } else {
        n
    }
}

/// The picture shown: smoothing stops after the first round that changes
/// no inner cell, or after `round_cap` rounds.
pub open spec fn settled_after(c: Seq<bool>, k: nat) -> bool {
    &&& 1 <= k <= round_cap(c.len())
    &&& (k == round_cap(c.len()) || inner_same(smooth_iter(c, k), smooth_iter(c, (k - 1) as nat)))
    &&& forall|i: nat|
        1 <= i < k ==> !inner_same(#[trigger] smooth_iter(c, i), smooth_iter(c, (i - 1) as nat))
}

/// When smoothing stops before the cap after two rounds or more, the
/// picture is a fixed point: another round would change no cell.
pub proof fn lemma_settled_is_fixed_point(c: Seq<bool>, k: nat)
    requires
        settled_after(c, k),
        2 <= k < round_cap(c.len()),
    ensures
        smooth_once(smooth_iter(c, k)) == smooth_iter(c, k),
{
    let a = smooth_iter(c, (k - 1) as nat);
    let b = smooth_iter(c, k);
    lemma_smooth_step(c, (k - 1) as nat);
    lemma_smooth_step(c, (k - 2) as nat);
    lemma_smooth_len(c, (k - 2) as nat);
    lemma_smooth_len(c, (k - 1) as nat);
    lemma_smooth_len(c, k);
    assert(inner_same(b, a));
    reveal(inner_same);
    assert(b =~= a) by {
        assert forall|j: int| 0 <= j < b.len() implies b[j] == a[j] by {
            if 1 <= j < b.len() - 1 {
            } else {
                assert(!a[j]);
                assert(!b[j]);
            }
        }
    }
}

fn smooth_once_exec(c: &Vec<bool>) -> (r: Vec<bool>)
    ensures
        r@ == smooth_once(c@),
{
    let n = c.len();
    let mut r: Vec<bool> = Vec::new();
    let mut j: usize = 0;
    while j < n
        invariant
            0 <= j <= n,
            n == c@.len(),
            r@.len() == j,
            forall|i: int| 0 <= i < j ==> #[trigger] r@[i] == smooth_once(c@)[i],
        decreases n - j,
    {
        if 1 <= j && j + 1 < n {
            let s: u8 = (if c[j - 1] {
                1
            } else {
                0
            }) + (if c[j] {
                1
            } else {
                0
            }) + (if c[j + 1] {
                1
            } else {
                0
            });
            r.push(s >= 2);
        } else {
            r.push(false);
        }
        j = j + 1;
    }
    assert(r@ =~= smooth_once(c@));
    r
}

fn inner_same_exec(a: &Vec<bool>, b: &Vec<bool>) -> (r: bool)
    requires
        a@.len() == b@.len(),
    ensures
        r == inner_same(a@, b@),
{
    reveal(inner_same);
    let n = a.len();
    let mut j: usize = 1;
    while n >= 2 && j < n - 1
        invariant
            1 <= j,
            n == a@.len(),
            n == b@.len(),
            forall|i: int| 1 <= i < j && i < n - 1 ==> a@[i] == b@[i],
        decreases n - j,
    {
        if a[j] != b[j] {
            assert(!inner_same(a@, b@)) by {
                reveal(inner_same);
                assert(a@[j as int] != b@[j as int]);
                assert(1 <= j < a@.len() - 1);
            }
            return false;
        }
        j = j + 1;
    }
    true
}

/// Cells flipped at random, shown smoothed.
pub struct CellBlobs {
    /// The raw cells.
    pub cells: Vec<bool>,
    /// The time of the last flip, in milliseconds.
    pub last_now: u64,
}

impl CellBlobs {
    /// Blobs over the given cells.
    pub fn new(cells: Vec<bool>) -> (r: CellBlobs)
        ensures
            r.cells@ == cells@,
            r.last_now == 0,
    {
        CellBlobs { cells, last_now: 0 }
    }

    /// The smoothed picture of the cells.
    #[verifier::rlimit(40)]
    pub fn smoothed(&self) -> (r: Vec<bool>)
        ensures
            r@.len() == self.cells@.len(),
            exists|k: nat| #[trigger] settled_after(self.cells@, k) && r@ == smooth_iter(self.cells@, k),
    {
        let n = self.cells.len();
        let mut cur: Vec<bool> = smooth_once_exec(&self.cells);
        let mut rounds: usize = 1;
        let mut changed = !inner_same_exec(&cur, &self.cells);
        proof {
            lemma_smooth_step(self.cells@, 0);
            lemma_smooth_len(self.cells@, 1);
        }
        let cap: usize = if n == 0 {
            1
        } else {
            n
        };
        while changed && rounds < cap
            invariant
                cap == round_cap(n as nat),
                1 <= rounds <= cap,
                cur@ == smooth_iter(self.cells@, rounds as nat),
                changed == !inner_same(
                    smooth_iter(self.cells@, rounds as nat),
                    smooth_iter(self.cells@, (rounds - 1) as nat),
                ),
                forall|i: nat|
                    1 <= i < rounds ==> !inner_same(
                        #[trigger] smooth_iter(self.cells@, i),
                        smooth_iter(self.cells@, (i - 1) as nat),
                    ),
                n == self.cells@.len(),
                cur@.len() == n,
            decreases cap - rounds,
        {
            let ghost prev_rounds = rounds as nat;
            let next = smooth_once_exec(&cur);
            proof {
                lemma_smooth_len(self.cells@, prev_rounds + 1);
                lemma_smooth_step(self.cells@, prev_rounds);
                assert(next@ == smooth_iter(self.cells@, prev_rounds + 1));
            }
            changed = !inner_same_exec(&next, &cur);
            rounds = rounds + 1;
            cur = next;
            proof {
                assert forall|i: nat|
                    1 <= i < rounds implies !inner_same(
                    #[trigger] smooth_iter(self.cells@, i),
                    smooth_iter(self.cells@, (i - 1) as nat),
                ) by {
                    if i == prev_rounds {
                    }
                }
            }
        }
        assert(settled_after(self.cells@, rounds as nat));
        cur
    }

    /// Shows the smoothed cells in red on one side, the others dark.
    pub fn render_side(&self, side: Side, leds: &mut WheelLEDs)
        requires
            old(leds).wf(),
            self.cells@.len() <= old(leds).num_leds(),
        ensures
            final(leds).wf(),
            final(leds).num_leds() == old(leds).num_leds(),
            exists|k: nat|
                #[trigger] settled_after(self.cells@, k) && forall|j: int|
                    0 <= j < self.cells@.len() ==> #[trigger] final(leds).side_view(side)[j] == (
                    if smooth_iter(self.cells@, k)[j] {
                        BLOB_COLOUR
                    } else {
                        (0u8, 0u8, 0u8)
                    }),
            final(leds).side_view(other_side(side)) == old(leds).side_view(other_side(side)),
    {
        let cells = self.smoothed();
        let ghost k = choose|k: nat| #[trigger] settled_after(self.cells@, k) && cells@ == smooth_iter(self.cells@, k);
        let n = cells.len();
        let mut shown: Vec<RGB24> = Vec::new();
        let mut i: usize = 0;
        while i < n
            invariant
                0 <= i <= n,
                n == cells@.len(),
                shown@.len() == i,
                forall|j: int|
                    0 <= j < i ==> #[trigger] shown@[j] == (if cells@[j] {
                        BLOB_COLOUR
                    } else {
                        (0u8, 0u8, 0u8)
                    }),
            decreases n - i,
        {
            if cells[i] {
                shown.push(BLOB_COLOUR);
            } else {
                shown.push((0, 0, 0));
            }
            i = i + 1;
        }
        proof {
            old(leds).lemma_wf_lengths();
        }
        copy_to_side(&shown, side, leds);
        assert(settled_after(self.cells@, k));
    }

    /// Flips cell `c` at `now`, if a 256th of the last rotation has passed
    /// since the last flip.
    pub fn step_with(&mut self, frame: &FrameState, c: usize)
        requires
            c < old(self).cells@.len(),
        ensures
            frame.now <= flip_due(old(self).last_now, frame.spin_length) ==> *final(self) == *old(
                self,
            ),
            frame.now > flip_due(old(self).last_now, frame.spin_length) ==> final(self).last_now
                == frame.now && final(self).cells@ == old(self).cells@.update(
                c as int,
                !old(self).cells@[c as int],
            ),
    {
        let timestep = frame.spin_length / 256;
        let next_now = self.last_now.saturating_add(timestep);
        if frame.now > next_now {
            self.last_now = frame.now;
            let v = !self.cells[c];
            self.cells.set(c, v);
        }
    }
}

/// The time after which the next flip may come.
pub open spec fn flip_due(last_now: u64, spin_length: u64) -> u64 {
    let t = last_now as int + spin_length as int / 256;
    if t > u64::MAX {
        u64::MAX
    } else {
        t as u64
    }
}

/// Blobs over `leds` random cells.
pub fn create_cellblobs(leds: usize) -> (r: CellBlobs)
    ensures
        r.cells@.len() == leds,
        r.last_now == 0,
{
    let mut cells: Vec<bool> = Vec::new();
    let mut n: usize = 0;
    while n < leds
        invariant
            0 <= n <= leds,
            cells@.len() == n,
        decreases leds - n,
    {
        cells.push(random_below(2) == 1);
        n = n + 1;
    }
    CellBlobs::new(cells)
}

impl Mode for CellBlobs {
    fn render(&self, side: Side, leds: &mut WheelLEDs, frame: &FrameState) {
        if leds.is_wf() && self.cells.len() <= leds.len() {
            self.render_side(side, leds);
        }
    }

    fn step(&mut self, frame: &FrameState) {
        let n = self.cells.len();
        if n > 0 {
            let c = random_below(n);
            self.step_with(frame, c);
        }
    }
}

} // verus!

//! Error-diffusion dithering of a hub-to-rim brightness ramp onto three
//! levels. Intensities are in thousandths of full brightness.
use crate::leds::{other_side, Side, WheelLEDs, RGB24};
use crate::rotation::{FrameState, SPIN_UNIT};
use vstd::prelude::*;

verus! {

/// No error in a pass reaches this magnitude while the frame count is
/// within `FRAME_LIMIT`.
pub const ERROR_LIMIT: i64 = 35_184_372_088_832;

/// The number of frames a dither runs before it starts again from no
/// error; at a thousand frames a second this is over thirty years.
pub const FRAME_LIMIT: u64 = 1_099_511_627_776;

/// A bound on the errors carried into frame number `frames`: rounding can
/// add less than four per frame.
pub open spec fn carry_bound(frames: int) -> int {
    600 + 4 * frames
}

/// A bound on every quantisation error in a pass whose carried errors are
/// within `p`.
pub open spec fn error_bound(p: int) -> int {
    16 * p / 9 + 1
}

/// The triangle ramp that spin position drives: clipped at one rotation,
/// doubled and wrapped, then folded so that it rises to half brightness and
/// falls back.
pub open spec fn ramp_intensity(spin_pos: u64) -> int {
    let bounded = if spin_pos > SPIN_UNIT {
        SPIN_UNIT as int
    } else {
        spin_pos as int
    };
    let scaled = (2 * bounded) % 1000;
    if scaled < 500 {
        scaled
    } else {
        1000 - scaled
    }
}

/// The level shown for a corrected intensity: full, half or off.
pub open spec fn quantize(c: int) -> int {
    if c > 660 {
        1000
    } else if c > 330 {
        500
    } else {
        0
    }
}

/// `w` sixteenths of `e`, rounded towards zero.
#[verifier::opaque]
pub open spec fn share(e: int, w: int) -> int {
    if e >= 0 {
        (e * w) / 16
    } else {
        -(((-e) * w) / 16)
    }
}

/// The part of an error passed to the next pixel of the same frame.
pub open spec fn forward_share(e: int) -> int {
    share(e, 7)
}

/// The part passed to the previous pixel of the next frame.
pub open spec fn lower_share(e: int) -> int {
    share(e, 3)
}

/// The part passed to the next pixel of the next frame.
pub open spec fn higher_share(e: int) -> int {
    share(e, 1)
}

/// The part kept by the same pixel for the next frame: what the other three
/// leave, about five sixteenths.
pub open spec fn mid_share(e: int) -> int {
    e - forward_share(e) - lower_share(e) - higher_share(e)
}

/// The error carried along the strip into pixel `i`.
pub open spec fn row_in(intensity: int, prev: Seq<int>, i: nat) -> int
    decreases i,
{
    if i == 0 {
        0
    } else {
        let c = intensity + row_in(intensity, prev, (i - 1) as nat) + prev[i - 1];
        forward_share(c - quantize(c))
    }
}

/// The intensity wanted at pixel `i`, with the errors that reach it.
pub open spec fn corrected(intensity: int, prev: Seq<int>, i: nat) -> int {
    intensity + row_in(intensity, prev, i) + prev[i as int]
}

/// The level shown at pixel `i`.
pub open spec fn level_at(intensity: int, prev: Seq<int>, i: nat) -> int {
    quantize(corrected(intensity, prev, i))
}

/// The quantisation error at pixel `i`.
pub open spec fn error_at(intensity: int, prev: Seq<int>, i: nat) -> int {
    corrected(intensity, prev, i) - level_at(intensity, prev, i)
}

/// The error that pixel `j` starts the next frame with: parts of the errors
/// of itself and of both neighbours.
pub open spec fn next_error_at(intensity: int, prev: Seq<int>, j: int) -> int {
    let n = prev.len() as int;
    (if j + 1 < n {
        lower_share(error_at(intensity, prev, (j + 1) as nat))
    } else {
        0
    }) + mid_share(error_at(intensity, prev, j as nat)) + (if j >= 1 {
        higher_share(error_at(intensity, prev, (j - 1) as nat))
    } else {
        0
    })
}

/// The colour of a level, with gamma two: full is 255, half is 63.
pub open spec fn level_colour(level: int) -> RGB24 {
    if level == 1000 {
        (255u8, 255u8, 0u8)
    } else if level == 500 {
        (63u8, 63u8, 0u8)
    } else {
        (0u8, 0u8, 0u8)
    }
}

/// What goes into the first `k` pixels: the ramp and the carried errors.
pub open spec fn sum_in(intensity: int, prev: Seq<int>, k: nat) -> int
    decreases k,
{
    if k == 0 {
        0
    } else {
        sum_in(intensity, prev, (k - 1) as nat) + intensity + prev[k - 1]
    }
}

/// The levels shown on the first `k` pixels.
pub open spec fn sum_out(intensity: int, prev: Seq<int>, k: nat) -> int
    decreases k,
{
    if k == 0 {
        0
    } else {
        sum_out(intensity, prev, (k - 1) as nat) + level_at(intensity, prev, (k - 1) as nat)
    }
}

/// The errors of the first `k` pixels passed on to the next frame.
pub open spec fn sum_carried(intensity: int, prev: Seq<int>, k: nat) -> int
    decreases k,
{
    if k == 0 {
        0
    } else {
        let e = error_at(intensity, prev, (k - 1) as nat);
        sum_carried(intensity, prev, (k - 1) as nat) + lower_share(e) + mid_share(e)
            + higher_share(e)
    }
}

/// The sum of a sequence of integers.
pub open spec fn seq_sum(s: Seq<int>) -> int
    decreases s.len(),
{
    if s.len() == 0 {
        0
    } else {
        seq_sum(s.drop_last()) + s.last()
    }
}

proof fn lemma_seq_sum_update(s: Seq<int>, j: int, v: int)
    requires
        0 <= j < s.len(),
    ensures
        seq_sum(s.update(j, v)) == seq_sum(s) - s[j] + v,
    decreases s.len(),
{
    if j < s.len() - 1 {
        lemma_seq_sum_update(s.drop_last(), j, v);
        assert(s.update(j, v).drop_last() =~= s.drop_last().update(j, v));
    } else {
        assert(s.update(j, v).drop_last() =~= s.drop_last());
    }
}

proof fn lemma_seq_sum_zero(s: Seq<int>)
    requires
        forall|j: int| 0 <= j < s.len() ==> s[j] == 0,
    ensures
        seq_sum(s) == 0,
    decreases s.len(),
{
    if s.len() > 0 {
        lemma_seq_sum_zero(s.drop_last());
    }
}

proof fn lemma_share_parts(e: int)
    ensures
        forward_share(e) + lower_share(e) + mid_share(e) + higher_share(e) == e,
        -e <= forward_share(e) <= e || e <= forward_share(e) <= -e,
        -e <= lower_share(e) <= e || e <= lower_share(e) <= -e,
        -e <= higher_share(e) <= e || e <= higher_share(e) <= -e,
        -e <= mid_share(e) <= e || e <= mid_share(e) <= -e,
        e >= 0 ==> forward_share(e) <= e * 7 / 16,
        e < 0 ==> forward_share(e) >= -((-e) * 7 / 16),
{
    reveal(share);
    if e >= 0 {
        assert(0 <= (e * 7) / 16 <= e) by (nonlinear_arith)
            requires
                e >= 0,
        ;
        assert(0 <= (e * 3) / 16 <= e) by (nonlinear_arith)
            requires
                e >= 0,
        ;
        assert(0 <= (e * 1) / 16 <= e) by (nonlinear_arith)
            requires
                e >= 0,
        ;
        assert((e * 7) / 16 + (e * 3) / 16 + (e * 1) / 16 <= e) by (nonlinear_arith)
            requires
                e >= 0,
        ;
    } else {
        let f = -e;
        assert(0 <= (f * 7) / 16 <= f) by (nonlinear_arith)
            requires
                f >= 0,
        ;
        assert(0 <= (f * 3) / 16 <= f) by (nonlinear_arith)
            requires
                f >= 0,
        ;
        assert(0 <= (f * 1) / 16 <= f) by (nonlinear_arith)
            requires
                f >= 0,
        ;
        assert((f * 7) / 16 + (f * 3) / 16 + (f * 1) / 16 <= f) by (nonlinear_arith)
            requires
                f >= 0,
        ;
    }
}

/// Diffusion neither creates nor destroys intensity along the strip: what
/// the ramp and the carried errors put into the first `k` pixels equals the
/// levels shown there, plus the errors they pass to the next frame, plus the
/// error still travelling along the strip past pixel `k`.
pub proof fn lemma_dither_conservation(intensity: int, prev: Seq<int>, k: nat)
    requires
        k <= prev.len(),
    ensures
        sum_in(intensity, prev, k) == sum_out(intensity, prev, k) + sum_carried(
            intensity,
            prev,
            k,
        ) + row_in(intensity, prev, k),
    decreases k,
{
    if k > 0 {
        lemma_dither_conservation(intensity, prev, (k - 1) as nat);
        lemma_share_parts(error_at(intensity, prev, (k - 1) as nat));
    }
}

/// The state of the dither mode: the errors carried between frames and the
/// colours of the current frame.
pub struct Dither {
    /// The errors propagated from the previous frame.
    pub prev_errors: Vec<i64>,
    /// The errors propagated to the next frame.
    pub next_errors: Vec<i64>,
    /// The colours that `pre_step` computed for this frame.
    pub rgb: Vec<RGB24>,
    /// The number of frames stepped since the errors were last zero.
    pub frames: u64,
}

/// The errors of a vector as integers.
pub open spec fn errors_of(v: Seq<i64>) -> Seq<int> {
    Seq::new(v.len(), |i: int| v[i] as int)
}

impl Dither {
    /// All three arrays have one entry per pixel, the frame count is within
    /// its limit, and the errors carried into this frame and the next are
    /// within their bounds.
    pub open spec fn wf(&self) -> bool {
        &&& self.next_errors@.len() == self.prev_errors@.len()
        &&& self.rgb@.len() == self.prev_errors@.len()
        &&& self.frames <= FRAME_LIMIT
        &&& forall|i: int|
            0 <= i < self.prev_errors@.len() ==> abs(#[trigger] self.prev_errors@[i] as int)
                <= carry_bound(self.frames as int)
        &&& forall|i: int|
            0 <= i < self.next_errors@.len() ==> abs(#[trigger] self.next_errors@[i] as int)
                <= carry_bound(self.frames + 1)
    }

    /// Whether the state is well formed.
    pub fn is_wf(&self) -> (r: bool)
        ensures
            r == self.wf(),
    {
        let n = self.prev_errors.len();
        if self.next_errors.len() != n || self.rgb.len() != n || self.frames > FRAME_LIMIT {
            return false;
        }
        let p: i64 = 600 + 4 * self.frames as i64;
        let q: i64 = p + 4;
        let mut i: usize = 0;
        while i < n
            invariant
                0 <= i <= n,
                n == self.prev_errors@.len(),
                n == self.next_errors@.len(),
                p == carry_bound(self.frames as int),
                q == carry_bound(self.frames + 1),
                self.frames <= FRAME_LIMIT,
                forall|j: int| 0 <= j < i ==> abs(#[trigger] self.prev_errors@[j] as int) <= p,
                forall|j: int| 0 <= j < i ==> abs(#[trigger] self.next_errors@[j] as int) <= q,
            decreases n - i,
        {
            let a = self.prev_errors[i];
            let b = self.next_errors[i];
            if a > p || a < -p || b > q || b < -q {
                return false;
            }
            i = i + 1;
        }
        true
    }

    /// A dither over `leds` pixels with no errors and a dark frame.
    pub fn new(leds: usize) -> (r: Dither)
        ensures
            r.wf(),
            r.rgb@.len() == leds,
            r.frames == 0,
            forall|i: int|
                0 <= i < leds ==> r.prev_errors@[i] == 0 && r.next_errors@[i] == 0 && r.rgb@[i]
                    == (0u8, 0u8, 0u8),
    {
        let mut prev_errors: Vec<i64> = Vec::new();
        let mut next_errors: Vec<i64> = Vec::new();
        let mut rgb: Vec<RGB24> = Vec::new();
        let mut i: usize = 0;
        while i < leds
            invariant
                0 <= i <= leds,
                prev_errors@.len() == i,
                next_errors@.len() == i,
                rgb@.len() == i,
                forall|j: int|
                    0 <= j < i ==> prev_errors@[j] == 0 && next_errors@[j] == 0 && rgb@[j] == (
                        0u8,
                        0u8,
                        0u8,
                    ),
            decreases leds - i,
        {
            prev_errors.push(0);
            next_errors.push(0);
            rgb.push((0, 0, 0));
            i = i + 1;
        }
        Dither { prev_errors, next_errors, rgb, frames: 0 }
    }

    /// Computes this frame's colours and the errors for the next frame from
    /// the ramp at the frame's spin position.
    #[verifier::rlimit(100)]
    pub fn pre_step(&mut self, frame: &FrameState)
        requires
            old(self).wf(),
        ensures
            final(self).wf(),
            final(self).prev_errors == old(self).prev_errors,
            final(self).frames == old(self).frames,
            final(self).rgb@.len() == old(self).rgb@.len(),
            forall|j: int|
                0 <= j < final(self).rgb@.len() ==> #[trigger] final(self).rgb@[j] == level_colour(
                    level_at(
                        ramp_intensity(frame.spin_pos),
                        errors_of(old(self).prev_errors@),
                        j as nat,
                    ),
                ),
            forall|j: int|
                0 <= j < final(self).next_errors@.len() ==> #[trigger] final(self).next_errors@[j]
                    == next_error_at(
                    ramp_intensity(frame.spin_pos),
                    errors_of(old(self).prev_errors@),
                    j,
                ),
            ({
                let intensity = ramp_intensity(frame.spin_pos);
                let prev = errors_of(old(self).prev_errors@);
                let n = prev.len();
                n > 0 ==> sum_in(intensity, prev, n) == sum_out(intensity, prev, n) + seq_sum(
                    errors_of(final(self).next_errors@),
                ) + lower_share(error_at(intensity, prev, 0)) + higher_share(
                    error_at(intensity, prev, (n - 1) as nat),
                ) + row_in(intensity, prev, n)
            }),
    {
        let ghost prev = errors_of(self.prev_errors@);
        let n = self.prev_errors.len();
        let bounded: u64 = if frame.spin_pos > SPIN_UNIT {
            SPIN_UNIT
        } else {
            frame.spin_pos
        };
        let scaled: u64 = (2 * bounded) % 1000;
        let intensity: i64 = if scaled < 500 {
            scaled as i64
        } else {
            1000 - scaled as i64
        };
        assert(intensity == ramp_intensity(frame.spin_pos));
        let ghost gi = intensity as int;
        let ghost p = carry_bound(self.frames as int);
        let ghost t = error_bound(p);
        assert(9 * t >= 16 * p && t >= 1066 && t <= ERROR_LIMIT / 2 && 9 * t + 45 <= 16 * (p
            + 4));
        let mut k: usize = 0;
        while k < n
            invariant
                0 <= k <= n,
                old(self).wf(),
                n == self.next_errors@.len(),
                n == old(self).prev_errors@.len(),
                self.prev_errors == old(self).prev_errors,
                self.rgb == old(self).rgb,
                self.frames == old(self).frames,
                forall|j: int| 0 <= j < k ==> self.next_errors@[j] == 0,
            decreases n - k,
        {
            self.next_errors.set(k, 0);
            k = k + 1;
        }
        proof {
            lemma_seq_sum_zero(errors_of(self.next_errors@));
        }
        let mut row_error: i64 = 0;
        let mut led: usize = 0;
        while led < n
            invariant
                old(self).wf(),
                self.prev_errors == old(self).prev_errors,
                self.frames == old(self).frames,
                p == carry_bound(self.frames as int),
                t == error_bound(p),
                9 * t >= 16 * p,
                1066 <= t <= ERROR_LIMIT / 2,
                prev == errors_of(self.prev_errors@),
                n == prev.len(),
                n == self.next_errors@.len(),
                n == self.rgb@.len(),
                gi == intensity,
                0 <= intensity <= 500,
                0 <= led <= n,
                row_error == row_in(gi, prev, led as nat),
                forall|j: int|
                    0 <= j < n ==> #[trigger] self.next_errors@[j] == partial_next(errors_in_pass(gi, prev), led as int, j),
                forall|j: int|
                    0 <= j < n ==> 16 * abs(#[trigger] self.next_errors@[j] as int) <= partial_bound(
                        t,
                        led as int,
                        j,
                    ),
                forall|j: int|
                    0 <= j < led ==> #[trigger] self.rgb@[j] == level_colour(
                        level_at(gi, prev, j as nat),
                    ),
                16 * abs(row_error as int) <= 7 * t,
                led > 0 ==> seq_sum(errors_of(self.next_errors@)) == sum_carried(
                    gi,
                    prev,
                    led as nat,
                ) - lower_share(error_at(gi, prev, 0)) - (if led == n {
                    higher_share(error_at(gi, prev, (n - 1) as nat))
                } else {
                    0
                }),
                led == 0 ==> seq_sum(errors_of(self.next_errors@)) == 0,
            decreases n - led,
        {
            let carried = self.prev_errors[led];
            let c: i64 = intensity + row_error + carried;
            assert(c == corrected(gi, prev, led as nat));
            let render_amount: i64 = if c > 660 {
                1000
            } else if c > 330 {
                500
            } else {
                0
            };
            let total_error: i64 = c - render_amount;
            let ghost e = total_error as int;
            assert(e == error_at(gi, prev, led as nat));
            proof {
                assert(abs(self.prev_errors@[led as int] as int) <= p);
                lemma_share_parts(e);
                lemma_share_magnitudes(e);
                assert(abs(e) <= t);
            }
            let fwd = share_exec(total_error, 7);
            assert(row_in(gi, prev, (led + 1) as nat) == fwd);
            proof {
                assert(sum_carried(gi, prev, (led + 1) as nat) == sum_carried(gi, prev, led as nat)
                    + lower_share(e) + mid_share(e) + higher_share(e));
            }
            spread_error(
                &mut self.next_errors,
                led,
                total_error,
                Ghost(errors_in_pass(gi, prev)),
                Ghost(t),
            );
            self.rgb.set(led, colour_of_level(render_amount));
            row_error = fwd;
            led = led + 1;
        }
        proof {
            lemma_dither_conservation(gi, prev, n as nat);
            assert forall|i: int| 0 <= i < n implies abs(#[trigger] self.prev_errors@[i] as int)
                <= carry_bound(self.frames as int) by {
                assert(old(self).prev_errors@[i] == self.prev_errors@[i]);
            }
            assert forall|i: int| 0 <= i < n implies abs(#[trigger] self.next_errors@[i] as int)
                <= carry_bound(self.frames + 1) by {
                assert(16 * abs(self.next_errors@[i] as int) <= partial_bound(t, n as int, i));
            }
        }
    }

    /// Writes this frame's colours to one side.
    pub fn render(&self, side: Side, leds: &mut WheelLEDs)
        requires
            self.wf(),
            old(leds).wf(),
            self.rgb@.len() <= old(leds).num_leds(),
        ensures
            final(leds).wf(),
            final(leds).num_leds() == old(leds).num_leds(),
            final(leds).side_view(side) == self.rgb@ + old(leds).side_view(side).subrange(
                self.rgb@.len() as int,
                old(leds).num_leds() as int,
            ),
            final(leds).side_view(other_side(side)) == old(leds).side_view(other_side(side)),
    {
        copy_to_side(&self.rgb, side, leds);
    }

    /// Moves the errors for the next frame into place, unchanged. After
    /// `FRAME_LIMIT` frames the dither starts again from no error.
    pub fn step(&mut self)
        requires
            old(self).wf(),
        ensures
            final(self).wf(),
            final(self).rgb == old(self).rgb,
            old(self).frames < FRAME_LIMIT ==> final(self).prev_errors@ == old(self).next_errors@,
            old(self).frames < FRAME_LIMIT ==> final(self).next_errors == old(self).next_errors,
            old(self).frames < FRAME_LIMIT ==> final(self).frames == old(self).frames + 1,
            old(self).frames == FRAME_LIMIT ==> final(self).frames == 0,
            old(self).frames == FRAME_LIMIT ==> final(self).prev_errors@ == Seq::new(
                old(self).prev_errors@.len(),
                |i: int| 0i64,
            ),
            old(self).frames == FRAME_LIMIT ==> final(self).next_errors@ == Seq::new(
                old(self).next_errors@.len(),
                |i: int| 0i64,
            ),
    {
        let n = self.next_errors.len();
        let restart = self.frames >= FRAME_LIMIT;
        let mut i: usize = 0;
        while i < n
            invariant
                n == self.next_errors@.len(),
                n == self.prev_errors@.len(),
                n == old(self).next_errors@.len(),
                self.rgb == old(self).rgb,
                self.frames == old(self).frames,
                restart == (old(self).frames >= FRAME_LIMIT),
                !restart ==> self.next_errors == old(self).next_errors,
                old(self).wf(),
                0 <= i <= n,
                forall|j: int|
                    0 <= j < i ==> #[trigger] self.prev_errors@[j] == (if restart {
                        0i64
                    } else {
                        old(self).next_errors@[j]
                    }),
                restart ==> forall|j: int| 0 <= j < i ==> #[trigger] self.next_errors@[j] == 0i64,
            decreases n - i,
        {
            if restart {
                self.prev_errors.set(i, 0);
                self.next_errors.set(i, 0);
            } else {
                let e = self.next_errors[i];
                self.prev_errors.set(i, e);
            }
            i = i + 1;
        }
        if restart {
            self.frames = 0;
            assert(self.prev_errors@ =~= Seq::new(n as nat, |i: int| 0i64));
            assert(self.next_errors@ =~= Seq::new(n as nat, |i: int| 0i64));
        } else {
            self.frames = self.frames + 1;
            assert(self.prev_errors@ =~= old(self).next_errors@);
        }
    }
}

/// The magnitude of an integer.
pub open spec fn abs(x: int) -> int {
    if x < 0 {
        -x
    } else {
        x
    }
}

/// The errors for the next frame once pixels `0..led` have spread theirs.
/// `err` gives the error of each pixel.
pub open spec fn partial_next(err: spec_fn(int) -> int, led: int, j: int) -> int {
    (if j + 1 < led {
        lower_share(err(j + 1))
    } else {
        0
    }) + (if j < led {
        mid_share(err(j))
    } else {
        0
    }) + (if 1 <= j <= led {
        higher_share(err(j - 1))
    } else {
        0
    })
}

/// The errors of each pixel in a pass.
pub open spec fn errors_in_pass(intensity: int, prev: Seq<int>) -> spec_fn(int) -> int {
    |i: int| error_at(intensity, prev, i as nat)
}

/// Sixteen times a bound on the errors for the next frame once pixels
/// `0..led` have spread theirs, each error being at most `t`.
spec fn partial_bound(t: int, led: int, j: int) -> int {
    (if j + 1 < led {
        3 * t
    } else {
        0
    }) + (if j < led {
        5 * t + 45
    } else {
        0
    }) + (if 1 <= j <= led {
        t
    } else {
        0
    })
}

/// Spreads the error `e` of pixel `led` to the next frame's errors of the
/// pixel and its neighbours.
#[verifier::rlimit(100)]
fn spread_error(
    next: &mut Vec<i64>,
    led: usize,
    e: i64,
    Ghost(err): Ghost<spec_fn(int) -> int>,
    Ghost(t): Ghost<int>,
)
    requires
        led < old(next)@.len(),
        e == err(led as int),
        abs(e as int) <= t,
        0 <= t <= ERROR_LIMIT / 2,
        forall|j: int|
            0 <= j < old(next)@.len() ==> #[trigger] old(next)@[j] == partial_next(err, led as int, j),
        forall|j: int|
            0 <= j < old(next)@.len() ==> 16 * abs(#[trigger] old(next)@[j] as int) <= partial_bound(
                t,
                led as int,
                j,
            ),
    ensures
        final(next)@.len() == old(next)@.len(),
        forall|j: int|
            0 <= j < final(next)@.len() ==> #[trigger] final(next)@[j] == partial_next(err, led + 1, j),
        forall|j: int|
            0 <= j < final(next)@.len() ==> 16 * abs(#[trigger] final(next)@[j] as int)
                <= partial_bound(t, led + 1, j),
        seq_sum(errors_of(final(next)@)) == seq_sum(errors_of(old(next)@)) + (if led > 0 {
            lower_share(e as int)
        } else {
            0
        }) + mid_share(e as int) + (if led + 1 < old(next)@.len() {
            higher_share(e as int)
        } else {
            0
        }),
{
    let n = next.len();
    let ghost old_next = next@;
    proof {
        lemma_share_parts(e as int);
        lemma_share_magnitudes(e as int);
    }
    let fwd = share_exec(e, 7);
    let lower = share_exec(e, 3);
    let higher = share_exec(e, 1);
    let mid = e - fwd - lower - higher;
    assert(mid == mid_share(e as int));
    if led > 0 {
        assert(16 * abs(next@[led - 1] as int) <= partial_bound(t, led as int, led - 1));
        add_error(next, led - 1, lower);
    }
    assert(16 * abs(next@[led as int] as int) <= partial_bound(t, led as int, led as int));
    add_error(next, led, mid);
    if led + 1 < n {
        assert(16 * abs(next@[led + 1] as int) <= partial_bound(t, led as int, led + 1));
        add_error(next, led + 1, higher);
    }
    proof {
        let lo = lower_share(e as int);
        let hi = higher_share(e as int);
        let mi = mid_share(e as int);
        assert(16 * abs(lo) <= 3 * t && 16 * abs(hi) <= t && 16 * abs(mi) <= 5 * t + 45);
        assert forall|j: int| 0 <= j < n implies #[trigger] next@[j] == partial_next(
            err,
            led + 1,
            j,
        ) && 16 * abs(next@[j] as int) <= partial_bound(t, led + 1, j) by {
            assert(old_next[j] == partial_next(err, led as int, j));
            assert(16 * abs(old_next[j] as int) <= partial_bound(t, led as int, j));
            if j == led - 1 {
                assert(next@[j] == old_next[j] + lower);
            } else if j == led {
                assert(next@[j] == old_next[j] + mid);
            } else if j == led + 1 {
                assert(next@[j] == old_next[j] + higher);
            } else {
                assert(next@[j] == old_next[j]);
            }
        }
    }
}

proof fn lemma_share_magnitudes(e: int)
    ensures
        abs(lower_share(e)) <= abs(e),
        abs(mid_share(e)) <= abs(e),
        abs(higher_share(e)) <= abs(e),
        16 * abs(forward_share(e)) <= 7 * abs(e),
        16 * abs(lower_share(e)) <= 3 * abs(e),
        16 * abs(higher_share(e)) <= abs(e),
        16 * abs(mid_share(e)) <= 5 * abs(e) + 45,
{
    reveal(share);
    lemma_share_parts(e);
    let a = abs(e);
    assert(16 * ((a * 7) / 16) <= 7 * a && 16 * ((a * 7) / 16) > 7 * a - 16) by (nonlinear_arith)
        requires
            a >= 0,
    ;
    assert(16 * ((a * 3) / 16) <= 3 * a && 16 * ((a * 3) / 16) > 3 * a - 16) by (nonlinear_arith)
        requires
            a >= 0,
    ;
    assert(16 * ((a * 1) / 16) <= a && 16 * ((a * 1) / 16) > a - 16) by (nonlinear_arith)
        requires
            a >= 0,
    ;
}

fn add_error(next: &mut Vec<i64>, j: usize, d: i64)
    requires
        j < old(next)@.len(),
        abs(old(next)@[j as int] as int) + abs(d as int) <= 12 * ERROR_LIMIT,
    ensures
        final(next)@ == old(next)@.update(j as int, (old(next)@[j as int] + d) as i64),
        seq_sum(errors_of(final(next)@)) == seq_sum(errors_of(old(next)@)) + d,
{
    let v = next[j] + d;
    proof {
        lemma_seq_sum_update(errors_of(next@), j as int, v as int);
        assert(errors_of(next@).update(j as int, v as int) =~= errors_of(next@.update(j as int, v)));
    }
    next.set(j, v);
}

fn share_exec(e: i64, w: i64) -> (r: i64)
    requires
        -4 * ERROR_LIMIT <= e <= 4 * ERROR_LIMIT,
        1 <= w <= 7,
    ensures
        r == share(e as int, w as int),
{
    reveal(share);
    if e >= 0 {
        assert(e * w <= 4 * ERROR_LIMIT * 7) by (nonlinear_arith)
            requires
                0 <= e <= 4 * ERROR_LIMIT,
                1 <= w <= 7,
        ;
        e * w / 16
    } else {
        let f = -e;
        assert(f * w <= 4 * ERROR_LIMIT * 7) by (nonlinear_arith)
            requires
                0 <= f <= 4 * ERROR_LIMIT,
                1 <= w <= 7,
        ;
        -(f * w / 16)
    }
}

fn colour_of_level(level: i64) -> (r: RGB24)
    ensures
        r == level_colour(level as int),
{
    if level == 1000 {
        (255, 255, 0)
    } else if level == 500 {
        (63, 63, 0)
    } else {
        (0, 0, 0)
    }
}

/// Writes `colours` to the first pixels of one side.
pub fn copy_to_side(colours: &Vec<RGB24>, side: Side, leds: &mut WheelLEDs)
    requires
        old(leds).wf(),
        colours@.len() <= old(leds).num_leds(),
    ensures
        final(leds).wf(),
        final(leds).num_leds() == old(leds).num_leds(),
        final(leds).side_view(side) == colours@ + old(leds).side_view(side).subrange(
            colours@.len() as int,
            old(leds).num_leds() as int,
        ),
        final(leds).side_view(other_side(side)) == old(leds).side_view(other_side(side)),
{
    let n = colours.len();
    let mut i: usize = 0;
    proof {
        old(leds).lemma_wf_lengths();
    }
    while i < n
        invariant
            leds.wf(),
            leds.num_leds() == old(leds).num_leds(),
            n == colours@.len(),
            n <= leds.num_leds(),
            0 <= i <= n,
            leds.side_view(side).len() == old(leds).side_view(side).len(),
            old(leds).side_view(side).len() == old(leds).num_leds(),
            forall|j: int| 0 <= j < i ==> leds.side_view(side)[j] == colours@[j],
            forall|j: int|
                i <= j < leds.num_leds() ==> leds.side_view(side)[j] == old(leds).side_view(
                    side,
                )[j],
            leds.side_view(other_side(side)) == old(leds).side_view(other_side(side)),
        decreases n - i,
    {
        proof {
            leds.lemma_wf_lengths();
        }
        leds.set(side, i, colours[i]);
        i = i + 1;
    }
    assert(leds.side_view(side) =~= colours@ + old(leds).side_view(side).subrange(
        n as int,
        old(leds).num_leds() as int,
    ));
}

/// A dither mode over `leds` pixels, starting with no errors.
pub fn create_dither(leds: usize) -> (r: Dither)
    ensures
        r.wf(),
        r.rgb@.len() == leds,
        forall|i: int|
            0 <= i < leds ==> r.prev_errors@[i] == 0 && r.next_errors@[i] == 0 && r.rgb@[i] == (
                0u8,
                0u8,
                0u8,
            ),
{
    Dither::new(leds)
}

} // verus!

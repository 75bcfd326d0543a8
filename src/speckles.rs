//! Speckle patterns that depend only on the frame count or on chance.
use crate::leds::RGB24;
use crate::random::random_below;
use crate::rotation::FrameState;
use vstd::prelude::*;

verus! {

pub const SPECKLE_COLOUR: RGB24 = (255, 255, 0);

/// Pixel `led` of `n` is lit on frames whose count is a multiple of its
/// period, which is 2 at the rim and grows by one per pixel inwards.
pub open spec fn speckle_lit(loop_counter: u32, n: int, led: int) -> bool {
    loop_counter as int % (2 + (n - 1 - led)) == 0
}

/// Lights every pixel whose period divides the frame count.
pub fn render_mod_speckle(wheel_leds: &mut [RGB24], framestate: &FrameState)
    requires
        old(wheel_leds)@.len() + 2 <= u32::MAX,
    ensures
        final(wheel_leds)@.len() == old(wheel_leds)@.len(),
        forall|j: int|
            0 <= j < final(wheel_leds)@.len() ==> #[trigger] final(wheel_leds)@[j] == (if speckle_lit(
                framestate.loop_counter,
                old(wheel_leds)@.len() as int,
                j,
            ) {
                SPECKLE_COLOUR
            } else {
                (0u8, 0u8, 0u8)
            }),
{
    let n = wheel_leds.len();
    let mut led: usize = 0;
    while led < n
        invariant
            0 <= led <= n,
            n == wheel_leds@.len(),
            n == old(wheel_leds)@.len(),
            n + 2 <= u32::MAX,
            forall|j: int|
                0 <= j < led ==> #[trigger] wheel_leds@[j] == (if speckle_lit(
                    framestate.loop_counter,
                    n as int,
                    j,
                ) {
                    SPECKLE_COLOUR
                } else {
                    (0u8, 0u8, 0u8)
                }),
        decreases n - led,
    {
        let m = framestate.loop_counter % (2 + (n - 1 - led) as u32);
        if m == 0 {
            wheel_leds[led] = SPECKLE_COLOUR;
        } else {
            wheel_leds[led] = (0, 0, 0);
        }
        led = led + 1;
    }
}

/// Lights only the innermost pixel whose period divides the frame count.
pub fn render_speckle_onepix(wheel_leds: &mut [RGB24], framestate: &FrameState)
    requires
        old(wheel_leds)@.len() + 2 <= u32::MAX,
    ensures
        final(wheel_leds)@.len() == old(wheel_leds)@.len(),
        forall|j: int|
            0 <= j < final(wheel_leds)@.len() ==> #[trigger] final(wheel_leds)@[j] == (if speckle_lit(
                framestate.loop_counter,
                old(wheel_leds)@.len() as int,
                j,
            ) && forall|k: int|
                0 <= k < j ==> !speckle_lit(
                    framestate.loop_counter,
                    old(wheel_leds)@.len() as int,
                    k,
                ) {
                SPECKLE_COLOUR
            } else {
                (0u8, 0u8, 0u8)
            }),
{
    let n = wheel_leds.len();
    let mut done = false;
    let mut led: usize = 0;
    while led < n
        invariant
            0 <= led <= n,
            n == wheel_leds@.len(),
            n == old(wheel_leds)@.len(),
            n + 2 <= u32::MAX,
            done == exists|k: int| 0 <= k < led && speckle_lit(framestate.loop_counter, n as int, k),
            forall|j: int|
                0 <= j < led ==> #[trigger] wheel_leds@[j] == (if speckle_lit(
                    framestate.loop_counter,
                    n as int,
                    j,
                ) && forall|k: int|
                    0 <= k < j ==> !speckle_lit(framestate.loop_counter, n as int, k) {
                    SPECKLE_COLOUR
                } else {
                    (0u8, 0u8, 0u8)
                }),
        decreases n - led,
    {
        let m = framestate.loop_counter % (2 + (n - 1 - led) as u32);
        assert((m == 0) == speckle_lit(framestate.loop_counter, n as int, led as int));
        proof {
            if m == 0 {
                assert(speckle_lit(framestate.loop_counter, n as int, led as int));
            } else {
                assert forall|k: int|
                    0 <= k < led + 1 && speckle_lit(framestate.loop_counter, n as int, k) implies 0
                    <= k < led by {}
            }
        }
        if m == 0 && !done {
            wheel_leds[led] = SPECKLE_COLOUR;
            done = true;
        } else {
            wheel_leds[led] = (0, 0, 0);
        }
        led = led + 1;
    }
}

/// The colour of channel choice `c`: red, green, or blue.
pub open spec fn channel_colour(c: int) -> RGB24 {
    if c == 0 {
        (255u8, 0u8, 0u8)
    } else if c == 1 {
        (0u8, 255u8, 0u8)
    } else {
        (0u8, 0u8, 255u8)
    }
}

/// A dark side with pixel `led` in channel `c`.
pub open spec fn speckle_pattern(n: nat, led: int, c: int) -> Seq<RGB24> {
    Seq::new(n, |j: int| if j == led { channel_colour(c) } else { (0u8, 0u8, 0u8) })
}

/// A dark side with pixel `led` white.
pub open spec fn white_dot(n: nat, led: int) -> Seq<RGB24> {
    Seq::new(n, |j: int| if j == led { (255u8, 255u8, 255u8) } else { (0u8, 0u8, 0u8) })
}

/// Lights pixel `led` in channel `c` and darkens the rest.
pub fn render_speckle_at(wheel_leds: &mut [RGB24], led: usize, c: usize)
    requires
        led < old(wheel_leds)@.len(),
    ensures
        final(wheel_leds)@.len() == old(wheel_leds)@.len(),
        forall|j: int|
            0 <= j < final(wheel_leds)@.len() ==> #[trigger] final(wheel_leds)@[j] == (if j
                == led {
                channel_colour(c as int)
            } else {
                (0u8, 0u8, 0u8)
            }),
{
    let n = wheel_leds.len();
    let mut i: usize = 0;
    while i < n
        invariant
            0 <= i <= n,
            n == wheel_leds@.len(),
            n == old(wheel_leds)@.len(),
            forall|j: int| 0 <= j < i ==> #[trigger] wheel_leds@[j] == (0u8, 0u8, 0u8),
        decreases n - i,
    {
        wheel_leds[i] = (0, 0, 0);
        i = i + 1;
    }
    let colour: RGB24 = if c == 0 {
        (255, 0, 0)
    } else if c == 1 {
        (0, 255, 0)
    } else {
        (0, 0, 255)
    };
    wheel_leds[led] = colour;
}

/// Lights one random pixel in a random primary colour and darkens the rest.
pub fn render_speckle_random(wheel_leds: &mut [RGB24], framestate: &FrameState)
    ensures
        final(wheel_leds)@.len() == old(wheel_leds)@.len(),
        old(wheel_leds)@.len() > 0 ==> exists|led: int, c: int|
            0 <= led < old(wheel_leds)@.len() && 0 <= c < 3 && final(wheel_leds)@
                == #[trigger] speckle_pattern(old(wheel_leds)@.len(), led, c),
        old(wheel_leds)@.len() == 0 ==> final(wheel_leds)@ == old(wheel_leds)@,
{
    let n = wheel_leds.len();
    if n > 0 {
        let led = random_below(n);
        let c = random_below(3);
        render_speckle_at(wheel_leds, led, c);
        assert(wheel_leds@ =~= speckle_pattern(n as nat, led as int, c as int));
    }
}

/// Darkens the side and lights pixel `n` white.
pub fn render_dot_white(wheel_leds: &mut [RGB24], n: usize)
    requires
        n < old(wheel_leds)@.len(),
    ensures
        final(wheel_leds)@.len() == old(wheel_leds)@.len(),
        forall|j: int|
            0 <= j < final(wheel_leds)@.len() ==> #[trigger] final(wheel_leds)@[j] == (if j == n {
                (255u8, 255u8, 255u8)
            } else {
                (0u8, 0u8, 0u8)
            }),
{
    let len = wheel_leds.len();
    let mut i: usize = 0;
    while i < len
        invariant
            0 <= i <= len,
            len == wheel_leds@.len(),
            len == old(wheel_leds)@.len(),
            forall|j: int| 0 <= j < i ==> #[trigger] wheel_leds@[j] == (0u8, 0u8, 0u8),
        decreases len - i,
    {
        wheel_leds[i] = (0, 0, 0);
        i = i + 1;
    }
    wheel_leds[n] = (255, 255, 255);
}

/// The length of a flame from the hub, out of `len` pixels: starting at the
/// centre, it steps out while a draw out of 1000 exceeds 250, up to the last
/// pixel.
pub fn hub_flame(len: usize) -> (r: usize)
    requires
        len > 0,
    ensures
        r < len,
{
    let mut n: usize = 0;
    while n < len - 1 && random_below(1000) > 250
        invariant
            0 <= n < len,
        decreases len - n,
    {
        n = n + 1;
    }
    n
}

/// A flame in a rainbow: its hue runs from the hub to the rim, starting at
/// an offset, in thousandths.
pub struct HubRainbow {
    /// The hue at the centre, below 1000.
    pub offset: u64,
}

impl HubRainbow {
    /// The hue of a flame tip at pixel `n` of `len`.
    pub fn flame_hue(&self, n: usize, len: usize) -> (r: u64)
        requires
            n < len,
            self.offset < 1000,
        ensures
            r == ((n as int * 1000 / len as int) + self.offset) % 1000,
    {
        assert(n as int * 1000 / len as int <= 1000) by (nonlinear_arith)
            requires
                n < len,
        ;
        assert((n as u128) * 1000 <= (usize::MAX as u128) * 1000) by (nonlinear_arith)
            requires
                n <= usize::MAX,
        ;
        let frac = ((n as u128) * 1000 / (len as u128)) as u64;
        (frac + self.offset) % 1000
    }
}

/// A hub rainbow whose centre hue is drawn at random.
pub fn create_hub_rainbow() -> (r: HubRainbow)
    ensures
        r.offset < 1000,
{
    HubRainbow { offset: random_below(1000) as u64 }
}

/// A flame from the hub: one white pixel whose distance from the centre is
/// drawn by stepping out while a draw out of 1000 exceeds 250, up to the
/// last pixel.
pub fn render_hub_white(wheel_leds: &mut [RGB24], framestate: &FrameState)
    ensures
        final(wheel_leds)@.len() == old(wheel_leds)@.len(),
        old(wheel_leds)@.len() > 0 ==> exists|n: int|
            0 <= n < old(wheel_leds)@.len() && final(wheel_leds)@ == #[trigger] white_dot(
                old(wheel_leds)@.len(),
                n,
            ),
        old(wheel_leds)@.len() == 0 ==> final(wheel_leds)@ == old(wheel_leds)@,
{
    let len = wheel_leds.len();
    if len > 0 {
        let n = hub_flame(len);
        render_dot_white(wheel_leds, n);
        assert(wheel_leds@ =~= white_dot(len as nat, n as int));
    }
}

} // verus!

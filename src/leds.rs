//! The two-sided pixel buffer of the wheel and its wire encoding.
use vstd::prelude::*;

verus! {

/// An 8-bit colour as (red, green, blue).
pub type RGB24 = (u8, u8, u8);

/// A Side identifies a side of the physical wheel.
#[derive(PartialEq, Eq, Structural, Copy, Clone, Debug)]
pub enum Side {
    /// The first set of LEDs on the string
    Left,
    /// The second set of LEDs on the string
    Right,
}

/// Both sides, in the order in which they are rendered.
pub const SIDES: [Side; 2] = [Side::Left, Side::Right];

/// The mode byte that marks a pixel frame on the wire.
pub const PIXEL_MARK: u8 = 255;

/// The number of all-zero frames sent after the last pixel.
pub const TRAILING_RESETS: usize = 4;

/// The frame that sits at position `f` of the transmission of a buffer with
/// sides `left` and `right`: one reset, the left side centre to rim, the right
/// side rim to centre, then the trailing resets.
pub open spec fn wire_frame(left: Seq<RGB24>, right: Seq<RGB24>, f: int) -> (u8, u8, u8, u8) {
    let n = left.len() as int;
    if 1 <= f <= n {
        pixel_frame(left[f - 1])
    } else if n + 1 <= f <= 2 * n {
        pixel_frame(right[2 * n - f])
    } else {
        (0, 0, 0, 0)
    }
}

/// The four wire bytes of one pixel: mode byte, blue, green, red.
pub open spec fn pixel_frame(c: RGB24) -> (u8, u8, u8, u8) {
    (PIXEL_MARK, c.2, c.1, c.0)
}

/// The byte at position `j` (0 to 3) of a frame.
pub open spec fn frame_byte(fr: (u8, u8, u8, u8), j: int) -> u8 {
    if j == 0 {
        fr.0
    } else if j == 1 {
        fr.1
    } else if j == 2 {
        fr.2
    } else {
        fr.3
    }
}

/// The number of frames sent for `n` pixels on each side.
pub open spec fn wire_frame_count(n: nat) -> nat {
    (1 + 2 * n + TRAILING_RESETS) as nat
}

/// The whole byte stream that shows the sides `left` and `right`.
pub open spec fn wire_bytes(left: Seq<RGB24>, right: Seq<RGB24>) -> Seq<u8> {
    Seq::new(
        4 * wire_frame_count(left.len()),
        |k: int| frame_byte(wire_frame(left, right, k / 4), k % 4),
    )
}

/// WheelLEDs holds one colour per LED, for each side of the wheel, both
/// sides in order from the centre of the wheel to the rim.
pub struct WheelLEDs {
    /// left_leds stores RGB values for the left side of the wheel,
    /// starting at the centre.
    left_leds: Vec<RGB24>,
    /// right_leds stores RGB values for the right side of the wheel,
    /// starting at the centre. This is the reverse of the order
    /// that right-side LEDs are sent down the bus.
    right_leds: Vec<RGB24>,
}

impl WheelLEDs {
    /// Both sides have the same number of LEDs.
    pub closed spec fn wf(&self) -> bool {
        self.left_leds@.len() == self.right_leds@.len()
    }

    /// The colours of one side, centre first.
    pub closed spec fn side_view(&self, side: Side) -> Seq<RGB24> {
        match side {
            Side::Left => self.left_leds@,
            Side::Right => self.right_leds@,
        }
    }

    /// The number of LEDs on each side.
    pub open spec fn num_leds(&self) -> nat {
        self.side_view(Side::Left).len()
    }

    /// Each side of a well-formed buffer has `num_leds` pixels.
    pub proof fn lemma_wf_lengths(&self)
        requires
            self.wf(),
        ensures
            forall|side: Side| #[trigger] self.side_view(side).len() == self.num_leds(),
    {
        assert forall|side: Side| #[trigger] self.side_view(side).len() == self.num_leds() by {
            match side {
                Side::Left => {},
                Side::Right => {},
            }
        }
    }

    /// A buffer of `leds` LEDs per side, all dark.
    pub fn new(leds: usize) -> (r: WheelLEDs)
        ensures
            r.wf(),
            r.num_leds() == leds,
            forall|i: int|
                0 <= i < leds ==> r.side_view(Side::Left)[i] == (0u8, 0u8, 0u8)
                    && r.side_view(Side::Right)[i] == (0u8, 0u8, 0u8),
    {
        let left_leds = dark_side(leds);
        let right_leds = dark_side(leds);
        WheelLEDs { left_leds, right_leds }
    }

    /// Whether both sides have the same number of LEDs.
    pub fn is_wf(&self) -> (r: bool)
        ensures
            r == self.wf(),
    {
        self.left_leds.len() == self.right_leds.len()
    }

    /// The number of LEDs on each side.
    pub fn len(&self) -> (r: usize)
        ensures
            r == self.num_leds(),
    {
        self.left_leds.len()
    }

    /// Sets one pixel; pixel number starts at the centre of the wheel, on
    /// both sides.
    pub fn set(&mut self, side: Side, pixel: usize, rgb: RGB24)
        requires
            old(self).wf(),
            pixel < old(self).num_leds(),
        ensures
            final(self).wf(),
            final(self).num_leds() == old(self).num_leds(),
            final(self).side_view(side) == old(self).side_view(side).update(pixel as int, rgb),
            final(self).side_view(other_side(side)) == old(self).side_view(other_side(side)),
    {
        match side {
            Side::Left => self.left_leds.set(pixel, rgb),
            Side::Right => self.right_leds.set(pixel, rgb),
        }
    }

    /// The colour of one pixel.
    pub fn get(&self, side: Side, pixel: usize) -> (r: RGB24)
        requires
            self.wf(),
            pixel < self.num_leds(),
        ensures
            r == self.side_view(side)[pixel as int],
    {
        match side {
            Side::Left => self.left_leds[pixel],
            Side::Right => self.right_leds[pixel],
        }
    }

    /// One side as a flat mutable array, centre first; writes through it
    /// change that side only.
    pub fn side_slice(&mut self, side: Side) -> (r: &mut [RGB24])
        ensures
            r@ == old(self).side_view(side),
            final(self).side_view(side) == final(r)@,
            final(self).side_view(other_side(side)) == old(self).side_view(other_side(side)),
    {
        match side {
            Side::Left => self.left_leds.as_mut_slice(),
            Side::Right => self.right_leds.as_mut_slice(),
        }
    }

    /// A copy of one side, centre first.
    pub fn side_slice_b(&self, side: Side) -> (r: Vec<RGB24>)
        ensures
            r@ == self.side_view(side),
    {
        let src = match side {
            Side::Left => &self.left_leds,
            Side::Right => &self.right_leds,
        };
        let mut r: Vec<RGB24> = Vec::new();
        let mut i: usize = 0;
        while i < src.len()
            invariant
                src@ == self.side_view(side),
                0 <= i <= src@.len(),
                r@ == src@.subrange(0, i as int),
            decreases src@.len() - i,
        {
            r.push(src[i]);
            i = i + 1;
            assert(r@ =~= src@.subrange(0, i as int));
        }
        assert(r@ =~= src@);
        r
    }

    /// The bytes that put this buffer on the strip, in the order they are
    /// written to the bus: a reset frame, each left pixel from the centre out,
    /// each right pixel from the rim in, and four more reset frames.
    pub fn show(&self) -> (r: Vec<u8>)
        requires
            self.wf(),
            4 * wire_frame_count(self.num_leds() as nat) <= usize::MAX,
        ensures
            r@ == wire_bytes(self.side_view(Side::Left), self.side_view(Side::Right)),
    {
        let n = self.left_leds.len();
        let ghost left = self.side_view(Side::Left);
        let ghost right = self.side_view(Side::Right);
        let mut out: Vec<u8> = Vec::new();
        push_frame(&mut out, 0, 0, 0, 0);
        let mut led: usize = 0;
        while led < n
            invariant
                self.wf(),
                n == left.len(),
                left == self.side_view(Side::Left),
                right == self.side_view(Side::Right),
                0 <= led <= n,
                out@.len() == 4 * (1 + led),
                forall|k: int|
                    0 <= k < out@.len() ==> out@[k] == frame_byte(
                        wire_frame(left, right, k / 4),
                        k % 4,
                    ),
            decreases n - led,
        {
            let (r, g, b) = self.left_leds[led];
            proof {
                lemma_frame_index(1 + led as int);
            }
            push_frame(&mut out, PIXEL_MARK, r, g, b);
            led = led + 1;
        }
        let mut led: usize = 0;
        while led < n
            invariant
                self.wf(),
                n == left.len(),
                n == right.len(),
                left == self.side_view(Side::Left),
                right == self.side_view(Side::Right),
                0 <= led <= n,
                out@.len() == 4 * (1 + n + led),
                forall|k: int|
                    0 <= k < out@.len() ==> out@[k] == frame_byte(
                        wire_frame(left, right, k / 4),
                        k % 4,
                    ),
            decreases n - led,
        {
            let (r, g, b) = self.right_leds[n - 1 - led];
            proof {
                lemma_frame_index(1 + n + led as int);
            }
            push_frame(&mut out, PIXEL_MARK, r, g, b);
            led = led + 1;
        }
        let mut pad: usize = 0;
        while pad < TRAILING_RESETS
            invariant
                n == left.len(),
                n == right.len(),
                0 <= pad <= TRAILING_RESETS,
                out@.len() == 4 * (1 + 2 * n + pad),
                4 * wire_frame_count(n as nat) <= usize::MAX,
                forall|k: int|
                    0 <= k < out@.len() ==> out@[k] == frame_byte(
                        wire_frame(left, right, k / 4),
                        k % 4,
                    ),
            decreases TRAILING_RESETS - pad,
        {
            proof {
                lemma_frame_index(1 + 2 * n + pad as int);
            }
            push_frame(&mut out, 0, 0, 0, 0);
            pad = pad + 1;
        }
        assert(out@ =~= wire_bytes(left, right));
        out
    }
}

/// The side that is not `side`.
pub open spec fn other_side(side: Side) -> Side {
    match side {
        Side::Left => Side::Right,
        Side::Right => Side::Left,
    }
}

proof fn lemma_frame_index(f: int)
    requires
        f >= 0,
    ensures
        forall|j: int| 0 <= j < 4 ==> #[trigger] ((4 * f + j) / 4) == f && (4 * f + j) % 4 == j,
{
    assert forall|j: int| 0 <= j < 4 implies #[trigger] ((4 * f + j) / 4) == f && (4 * f + j) % 4
        == j by {
        assert((4 * f + j) / 4 == f && (4 * f + j) % 4 == j) by (nonlinear_arith)
            requires
                0 <= j < 4,
                f >= 0,
        ;
    }
}

/// `n` dark pixels.
fn dark_side(n: usize) -> (r: Vec<RGB24>)
    ensures
        r@.len() == n,
        forall|i: int| 0 <= i < n ==> r@[i] == (0u8, 0u8, 0u8),
{
    let mut r: Vec<RGB24> = Vec::new();
    let mut i: usize = 0;
    while i < n
        invariant
            0 <= i <= n,
            r@.len() == i,
            forall|j: int| 0 <= j < i ==> r@[j] == (0u8, 0u8, 0u8),
        decreases n - i,
    {
        r.push((0, 0, 0));
        i = i + 1;
    }
    r
}

/// Appends one four-byte frame `[m, b, g, r]`.
fn push_frame(out: &mut Vec<u8>, m: u8, r: u8, g: u8, b: u8)
    ensures
        final(out)@ == old(out)@ + seq![m, b, g, r],
{
    out.push(m);
    out.push(b);
    out.push(g);
    out.push(r);
    assert(final(out)@ =~= old(out)@ + seq![m, b, g, r]);
}

/// Sets every LED of a side to black.
pub fn blank_leds(wheel_leds: &mut [RGB24])
    ensures
        final(wheel_leds)@.len() == old(wheel_leds)@.len(),
        forall|i: int| 0 <= i < final(wheel_leds)@.len() ==> final(wheel_leds)@[i] == (0u8, 0u8, 0u8),
{
    let n = wheel_leds.len();
    let mut i: usize = 0;
    while i < n
        invariant
            0 <= i <= n,
            n == wheel_leds@.len(),
            n == old(wheel_leds)@.len(),
            forall|j: int| 0 <= j < i ==> wheel_leds@[j] == (0u8, 0u8, 0u8),
        decreases n - i,
    {
        wheel_leds[i] = (0, 0, 0);
        i = i + 1;
    }
}

/// Reading back after a write: once pixel `i` of `side` is set to `c` (the
/// state `set` leaves), that side reads `c` at `i` and its old colours
/// elsewhere, and the other side is untouched.
pub proof fn lemma_set_round_trip(
    before: WheelLEDs,
    after: WheelLEDs,
    side: Side,
    i: int,
    c: RGB24,
)
    requires
        before.wf(),
        0 <= i < before.num_leds(),
        after.side_view(side) == before.side_view(side).update(i, c),
        after.side_view(other_side(side)) == before.side_view(other_side(side)),
    ensures
        after.side_view(side)[i] == c,
        forall|j: int|
            0 <= j < before.num_leds() && j != i ==> #[trigger] after.side_view(side)[j]
                == before.side_view(side)[j],
        forall|j: int|
            0 <= j < before.num_leds() ==> #[trigger] after.side_view(other_side(side))[j]
                == before.side_view(other_side(side))[j],
{
    before.lemma_wf_lengths();
}

/// The four bytes of frame `f` of a byte stream.
pub open spec fn frame_of(w: Seq<u8>, f: int) -> (u8, u8, u8, u8) {
    (w[4 * f], w[4 * f + 1], w[4 * f + 2], w[4 * f + 3])
}

/// The layout of the transmitted stream: `1 + 2n + 4` frames of four bytes;
/// the first and the last four are all-zero resets; every frame in between
/// carries the pixel mark; the left side goes out in storage order and the
/// right side in reverse storage order.
pub proof fn lemma_wire_layout(left: Seq<RGB24>, right: Seq<RGB24>)
    requires
        left.len() == right.len(),
    ensures
        wire_bytes(left, right).len() == 4 * (1 + 2 * left.len() + 4),
        frame_of(wire_bytes(left, right), 0) == (0u8, 0u8, 0u8, 0u8),
        forall|t: int|
            0 <= t < 4 ==> #[trigger] frame_of(wire_bytes(left, right), 1 + 2 * left.len() + t)
                == (0u8, 0u8, 0u8, 0u8),
        forall|i: int|
            0 <= i < left.len() ==> #[trigger] frame_of(wire_bytes(left, right), 1 + i)
                == pixel_frame(left[i]),
        forall|i: int|
            0 <= i < left.len() ==> #[trigger] frame_of(wire_bytes(left, right), 1 + left.len() + i)
                == pixel_frame(right[left.len() - 1 - i]),
{
    let n = left.len() as int;
    let w = wire_bytes(left, right);
    lemma_frame_index(0);
    assert(frame_of(w, 0) == (0u8, 0u8, 0u8, 0u8));
    assert forall|t: int| 0 <= t < 4 implies #[trigger] frame_of(w, 1 + 2 * n + t) == (
        0u8,
        0u8,
        0u8,
        0u8,
    ) by {
        lemma_frame_index(1 + 2 * n + t);
    }
    assert forall|i: int| 0 <= i < n implies #[trigger] frame_of(w, 1 + i) == pixel_frame(
        left[i],
    ) by {
        lemma_frame_index(1 + i);
    }
    assert forall|i: int| 0 <= i < n implies #[trigger] frame_of(w, 1 + n + i) == pixel_frame(
        right[n - 1 - i],
    ) by {
        lemma_frame_index(1 + n + i);
    }
}

} // verus!

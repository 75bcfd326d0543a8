//! Text on the wheel: phrases as seven rows of up to 128 columns, composed
//! from glyph bitmaps and shown one column per spin position on the seven
//! rim pixels.
use crate::leds::{other_side, Side, WheelLEDs, RGB24};
use crate::modes::Mode;
use crate::rotation::FrameState;
use vstd::prelude::*;

verus! {

/// The number of rows of text.
pub const TEXT_ROWS: usize = 7;

pub const LEFT_TEXT: RGB24 = (255, 32, 0);

pub const RIGHT_TEXT: RGB24 = (56, 255, 0);

/// A character's bitmap: its width in columns, and for each row the lit
/// columns as bits, the leftmost column in the highest bit.
pub struct Glyph {
    pub width: u32,
    pub rows: Vec<u128>,
}

impl Glyph {
    /// Seven rows, and a width that leaves room for a gap column.
    pub open spec fn wf(&self) -> bool {
        self.rows@.len() == TEXT_ROWS && self.width < 127
    }
}

/// Row `row` of the bitmap of the first `k` glyphs: each glyph shifts what
/// came before left by its width and a gap column, then fills in its bits.
pub open spec fn compose_row(glyphs: Seq<Glyph>, k: nat, row: int) -> u128
    decreases k,
{
    if k == 0 {
        0
    } else {
        let g = glyphs[k - 1];
        (compose_row(glyphs, (k - 1) as nat, row) << ((g.width + 1) as u128)) | g.rows@[row]
    }
}

/// The seven rows of a phrase made of `glyphs`, one per character.
pub fn str_to_bitmap(glyphs: &Vec<Glyph>) -> (r: Vec<u128>)
    requires
        forall|i: int| 0 <= i < glyphs@.len() ==> #[trigger] glyphs@[i].wf(),
    ensures
        r@.len() == TEXT_ROWS,
        forall|row: int|
            0 <= row < TEXT_ROWS ==> #[trigger] r@[row] == compose_row(glyphs@, glyphs@.len(), row),
{
    let mut bitmap: Vec<u128> = Vec::new();
    let mut row: usize = 0;
    while row < TEXT_ROWS
        invariant
            0 <= row <= TEXT_ROWS,
            bitmap@.len() == row,
            forall|j: int| 0 <= j < row ==> #[trigger] bitmap@[j] == 0u128,
        decreases TEXT_ROWS - row,
    {
        bitmap.push(0);
        row = row + 1;
    }
    let mut c: usize = 0;
    while c < glyphs.len()
        invariant
            0 <= c <= glyphs@.len(),
            bitmap@.len() == TEXT_ROWS,
            forall|i: int| 0 <= i < glyphs@.len() ==> #[trigger] glyphs@[i].wf(),
            forall|j: int|
                0 <= j < TEXT_ROWS ==> #[trigger] bitmap@[j] == compose_row(glyphs@, c as nat, j),
        decreases glyphs@.len() - c,
    {
        let glyph = &glyphs[c];
        assert(glyph.wf());
        let width = glyph.width + 1;
        let mut row: usize = 0;
        while row < TEXT_ROWS
            invariant
                0 <= row <= TEXT_ROWS,
                bitmap@.len() == TEXT_ROWS,
                glyph == glyphs@[c as int],
                glyph.wf(),
                width == glyph.width + 1,
                forall|j: int|
                    0 <= j < row ==> #[trigger] bitmap@[j] == compose_row(glyphs@, (c + 1) as nat, j),
                forall|j: int|
                    row <= j < TEXT_ROWS ==> #[trigger] bitmap@[j] == compose_row(glyphs@, c as nat, j),
            decreases TEXT_ROWS - row,
        {
            let v = (bitmap[row] << (width as u128)) | glyph.rows[row];
            bitmap.set(row, v);
            row = row + 1;
        }
        c = c + 1;
    }
    bitmap
}

/// The column of the text shown at spin position `pos` on `side`: the
/// position within the rotation scaled to 128 columns, mirrored on the left
/// side, which turns the other way.
pub open spec fn text_column(pos: u64, side: Side) -> int {
    let p = (pos as int % 1000) * 128 / 1000;
    if side == Side::Left {
        127 - p
    } else {
        p
    }
}

/// The colour of rim pixel `j` of `n` showing column `col` of `rows`.
pub open spec fn text_pixel(rows: Seq<u128>, side: Side, col: int, n: int, j: int) -> RGB24 {
    if n - TEXT_ROWS <= j < n && (rows[n - 1 - j] >> (col as u128)) & 1u128 == 1u128 {
        if side == Side::Left {
            LEFT_TEXT
        } else {
            RIGHT_TEXT
        }
    } else {
        (0u8, 0u8, 0u8)
    }
}

/// Shows one column of the text on the seven rim pixels of a side, the
/// top row at the rim, and darkens the rest.
pub fn helper_render_bitmap(rows: &Vec<u128>, side: Side, wheel_leds: &mut WheelLEDs, framestate: &FrameState)
    requires
        rows@.len() == TEXT_ROWS,
        old(wheel_leds).wf(),
        old(wheel_leds).num_leds() >= TEXT_ROWS,
    ensures
        final(wheel_leds).wf(),
        final(wheel_leds).num_leds() == old(wheel_leds).num_leds(),
        forall|j: int|
            0 <= j < old(wheel_leds).num_leds() ==> #[trigger] final(wheel_leds).side_view(side)[j]
                == text_pixel(
                rows@,
                side,
                text_column(framestate.spin_pos, side),
                old(wheel_leds).num_leds() as int,
                j,
            ),
        final(wheel_leds).side_view(other_side(side)) == old(wheel_leds).side_view(other_side(side)),
{
    let n = wheel_leds.len();
    let pos = framestate.spin_pos % 1000;
    let mut pixel: u64 = pos * 128 / 1000;
    if side == Side::Left {
        pixel = 127 - pixel;
    }
    assert(pixel == text_column(framestate.spin_pos, side));
    let ghost col = pixel as int;
    proof {
        old(wheel_leds).lemma_wf_lengths();
    }
    let mut led: usize = 0;
    while led < n
        invariant
            wheel_leds.wf(),
            n == wheel_leds.num_leds(),
            n == old(wheel_leds).num_leds(),
            n >= TEXT_ROWS,
            rows@.len() == TEXT_ROWS,
            pixel < 128,
            col == pixel,
            0 <= led <= n,
            wheel_leds.side_view(side).len() == n,
            forall|j: int|
                0 <= j < led ==> #[trigger] wheel_leds.side_view(side)[j] == text_pixel(
                    rows@,
                    side,
                    col,
                    n as int,
                    j,
                ),
            wheel_leds.side_view(other_side(side)) == old(wheel_leds).side_view(other_side(side)),
        decreases n - led,
    {
        proof {
            wheel_leds.lemma_wf_lengths();
        }
        let colour: RGB24 = if led >= n - TEXT_ROWS && (rows[n - 1 - led] >> (pixel as u128)) & 1u128
            == 1u128 {
            if side == Side::Left {
                LEFT_TEXT
            } else {
                RIGHT_TEXT
            }
        } else {
            (0, 0, 0)
        };
        wheel_leds.set(side, led, colour);
        led = led + 1;
    }
}

/// The speed shown by the speedometer, in km/h rounded to the nearest,
/// for a wheel of 1.59 m turning once in `spin_length` milliseconds; none
/// when no rotation has been timed.
pub open spec fn speed_kmh_spec(spin_length: u64) -> Option<u64> {
    if spin_length == 0 {
        None
    } else {
        Some(((5724 * 2 + spin_length as int) / (2 * spin_length as int)) as u64)
    }
}

/// The speedometer's reading for a rotation of `spin_length` milliseconds.
pub fn speed_kmh(spin_length: u64) -> (r: Option<u64>)
    ensures
        r == speed_kmh_spec(spin_length),
{
    if spin_length == 0 {
        None
    } else {
        let l = spin_length as u128;
        assert((5724 * 2 + l) / (2 * l) <= 5724 * 2 + l) by (nonlinear_arith)
            requires
                l >= 1,
        ;
        Some(((5724 * 2 + l) / (2 * l)) as u64)
    }
}

/// A phrase shown around the wheel.
pub struct PhraseMode {
    /// The seven rows of the phrase.
    pub bitmap: Vec<u128>,
}

/// The speedometer: a phrase that changes to the current speed on the first
/// new rotation after a second has passed since the last change.
pub struct SpeedoMode {
    pub canvas: PhraseMode,
    /// When the reading last changed, in milliseconds.
    pub last_change: u64,
    /// The spin position of the previous frame.
    pub last_spin_pos: u64,
    /// The number of readings shown.
    pub counter: u32,
}

impl SpeedoMode {
    /// Whether the reading changes on this frame.
    pub open spec fn due_spec(&self, frame: FrameState) -> bool {
        self.last_change + 1000 < frame.now && frame.spin_pos < self.last_spin_pos
    }

    /// Whether the reading changes on this frame.
    pub fn due(&self, frame: &FrameState) -> (r: bool)
        ensures
            r == self.due_spec(*frame),
    {
        self.last_change < frame.now && frame.now - self.last_change > 1000 && frame.spin_pos
            < self.last_spin_pos
    }

    /// Shows a new reading's bitmap, taken at `frame`.
    pub fn show_reading(&mut self, bitmap: Vec<u128>, frame: &FrameState)
        ensures
            final(self).canvas.bitmap == bitmap,
            final(self).last_change == frame.now,
            final(self).counter == (if old(self).counter == u32::MAX {
                0
            } else {
                old(self).counter + 1
            }),
            final(self).last_spin_pos == old(self).last_spin_pos,
    {
        self.canvas.bitmap = bitmap;
        self.counter = self.counter.wrapping_add(1);
        self.last_change = frame.now;
    }

    /// Remembers the frame's spin position, to spot the next rotation.
    pub fn note_position(&mut self, frame: &FrameState)
        ensures
            final(self).last_spin_pos == frame.spin_pos,
            final(self).canvas.bitmap == old(self).canvas.bitmap,
            final(self).last_change == old(self).last_change,
            final(self).counter == old(self).counter,
    {
        self.last_spin_pos = frame.spin_pos;
    }
}

impl Mode for PhraseMode {
    fn render(&self, side: Side, leds: &mut WheelLEDs, frame: &FrameState) {
        if self.bitmap.len() == TEXT_ROWS && leds.is_wf() && leds.len() >= TEXT_ROWS {
            helper_render_bitmap(&self.bitmap, side, leds, frame);
        }
    }
}

} // verus!

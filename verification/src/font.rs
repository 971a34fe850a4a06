//! A small fixed-width bitmap font.
//!
//! Every character takes a cell of 6 by 10 pixels, of which its glyph fills
//! 5 by 7. The font knows the ASCII letters, digits and the common signs;
//! small letters are drawn as capitals, and what it does not know is drawn
//! as a box. Text is drawn byte by byte.

use vstd::prelude::*;
use vstd::arithmetic::div_mod::lemma_fundamental_div_mod_converse;
use vstd::string::StringSliceAdditionalSpecFns;
use crate::render::{GLYPH_WIDTH, MAX_SIDE};
use crate::shapes::{painted, plotted, put_pixel, Stroke};

verus! {

/// Number of rows of a glyph.
pub const GLYPH_ROWS: usize = 7;

/// Number of columns of a glyph.
pub const GLYPH_COLUMNS: usize = 5;

/// Number of pixels of a glyph.
pub const GLYPH_PIXELS: usize = 35;

/// The glyph of a byte below 32: nothing.
pub const BLANK: [u8; 7] = [0x00, 0x00, 0x00, 0x00, 0x00, 0x00, 0x00];

/// The glyph of a byte that is no ASCII character: a box.
pub const UNKNOWN: [u8; 7] = [0x1F, 0x11, 0x11, 0x11, 0x11, 0x11, 0x1F];

/// The bit of a row of a glyph that stands for each column, from the left.
pub const COLUMN_BITS: [u8; 5] = [0x10, 0x08, 0x04, 0x02, 0x01];

/// The glyphs of the bytes from 32 to 127, each as its rows from top to
/// bottom.
pub const FONT: [[u8; 7]; 96] = [
    [0x00, 0x00, 0x00, 0x00, 0x00, 0x00, 0x00],
    [0x04, 0x04, 0x04, 0x04, 0x04, 0x00, 0x04],
    [0x0A, 0x0A, 0x0A, 0x00, 0x00, 0x00, 0x00],
    [0x1F, 0x11, 0x11, 0x11, 0x11, 0x11, 0x1F],
    [0x1F, 0x11, 0x11, 0x11, 0x11, 0x11, 0x1F],
    [0x19, 0x19, 0x02, 0x04, 0x08, 0x13, 0x13],
    [0x1F, 0x11, 0x11, 0x11, 0x11, 0x11, 0x1F],
    [0x04, 0x04, 0x08, 0x00, 0x00, 0x00, 0x00],
    [0x02, 0x04, 0x08, 0x08, 0x08, 0x04, 0x02],
    [0x08, 0x04, 0x02, 0x02, 0x02, 0x04, 0x08],
    [0x00, 0x15, 0x0E, 0x1F, 0x0E, 0x15, 0x00],
    [0x00, 0x04, 0x04, 0x1F, 0x04, 0x04, 0x00],
    [0x00, 0x00, 0x00, 0x00, 0x0C, 0x04, 0x08],
    [0x00, 0x00, 0x00, 0x1F, 0x00, 0x00, 0x00],
    [0x00, 0x00, 0x00, 0x00, 0x00, 0x0C, 0x0C],
    [0x01, 0x01, 0x02, 0x04, 0x08, 0x10, 0x10],
    [0x0E, 0x11, 0x13, 0x15, 0x19, 0x11, 0x0E],
    [0x04, 0x0C, 0x04, 0x04, 0x04, 0x04, 0x0E],
    [0x0E, 0x11, 0x01, 0x02, 0x04, 0x08, 0x1F],
    [0x0E, 0x11, 0x01, 0x06, 0x01, 0x11, 0x0E],
    [0x02, 0x06, 0x0A, 0x12, 0x1F, 0x02, 0x02],
    [0x1F, 0x10, 0x1E, 0x01, 0x01, 0x11, 0x0E],
    [0x06, 0x08, 0x10, 0x1E, 0x11, 0x11, 0x0E],
    [0x1F, 0x01, 0x02, 0x04, 0x08, 0x08, 0x08],
    [0x0E, 0x11, 0x11, 0x0E, 0x11, 0x11, 0x0E],
    [0x0E, 0x11, 0x11, 0x0F, 0x01, 0x02, 0x0C],
    [0x00, 0x0C, 0x0C, 0x00, 0x0C, 0x0C, 0x00],
    [0x00, 0x0C, 0x0C, 0x00, 0x0C, 0x04, 0x08],
    [0x02, 0x04, 0x08, 0x10, 0x08, 0x04, 0x02],
    [0x00, 0x00, 0x1F, 0x00, 0x1F, 0x00, 0x00],
    [0x08, 0x04, 0x02, 0x01, 0x02, 0x04, 0x08],
    [0x0E, 0x11, 0x01, 0x02, 0x04, 0x00, 0x04],
    [0x1F, 0x11, 0x11, 0x11, 0x11, 0x11, 0x1F],
    [0x0E, 0x11, 0x11, 0x1F, 0x11, 0x11, 0x11],
    [0x1E, 0x11, 0x11, 0x1E, 0x11, 0x11, 0x1E],
    [0x0E, 0x11, 0x10, 0x10, 0x10, 0x11, 0x0E],
    [0x1E, 0x11, 0x11, 0x11, 0x11, 0x11, 0x1E],
    [0x1F, 0x10, 0x10, 0x1E, 0x10, 0x10, 0x1F],
    [0x1F, 0x10, 0x10, 0x1E, 0x10, 0x10, 0x10],
    [0x0E, 0x11, 0x10, 0x17, 0x11, 0x11, 0x0F],
    [0x11, 0x11, 0x11, 0x1F, 0x11, 0x11, 0x11],
    [0x0E, 0x04, 0x04, 0x04, 0x04, 0x04, 0x0E],
    [0x07, 0x02, 0x02, 0x02, 0x02, 0x12, 0x0C],
    [0x11, 0x12, 0x14, 0x18, 0x14, 0x12, 0x11],
    [0x10, 0x10, 0x10, 0x10, 0x10, 0x10, 0x1F],
    [0x11, 0x1B, 0x15, 0x15, 0x11, 0x11, 0x11],
    [0x11, 0x19, 0x15, 0x13, 0x11, 0x11, 0x11],
    [0x0E, 0x11, 0x11, 0x11, 0x11, 0x11, 0x0E],
    [0x1E, 0x11, 0x11, 0x1E, 0x10, 0x10, 0x10],
    [0x0E, 0x11, 0x11, 0x11, 0x15, 0x12, 0x0D],
    [0x1E, 0x11, 0x11, 0x1E, 0x14, 0x12, 0x11],
    [0x0F, 0x10, 0x10, 0x0E, 0x01, 0x01, 0x1E],
    [0x1F, 0x04, 0x04, 0x04, 0x04, 0x04, 0x04],
    [0x11, 0x11, 0x11, 0x11, 0x11, 0x11, 0x0E],
    [0x11, 0x11, 0x11, 0x11, 0x11, 0x0A, 0x04],
    [0x11, 0x11, 0x11, 0x15, 0x15, 0x1B, 0x11],
    [0x11, 0x11, 0x0A, 0x04, 0x0A, 0x11, 0x11],
    [0x11, 0x11, 0x0A, 0x04, 0x04, 0x04, 0x04],
    [0x1F, 0x01, 0x02, 0x04, 0x08, 0x10, 0x1F],
    [0x1F, 0x11, 0x11, 0x11, 0x11, 0x11, 0x1F],
    [0x1F, 0x11, 0x11, 0x11, 0x11, 0x11, 0x1F],
    [0x1F, 0x11, 0x11, 0x11, 0x11, 0x11, 0x1F],
    [0x1F, 0x11, 0x11, 0x11, 0x11, 0x11, 0x1F],
    [0x00, 0x00, 0x00, 0x00, 0x00, 0x00, 0x1F],
    [0x1F, 0x11, 0x11, 0x11, 0x11, 0x11, 0x1F],
    [0x0E, 0x11, 0x11, 0x1F, 0x11, 0x11, 0x11],
    [0x1E, 0x11, 0x11, 0x1E, 0x11, 0x11, 0x1E],
    [0x0E, 0x11, 0x10, 0x10, 0x10, 0x11, 0x0E],
    [0x1E, 0x11, 0x11, 0x11, 0x11, 0x11, 0x1E],
    [0x1F, 0x10, 0x10, 0x1E, 0x10, 0x10, 0x1F],
    [0x1F, 0x10, 0x10, 0x1E, 0x10, 0x10, 0x10],
    [0x0E, 0x11, 0x10, 0x17, 0x11, 0x11, 0x0F],
    [0x11, 0x11, 0x11, 0x1F, 0x11, 0x11, 0x11],
    [0x0E, 0x04, 0x04, 0x04, 0x04, 0x04, 0x0E],
    [0x07, 0x02, 0x02, 0x02, 0x02, 0x12, 0x0C],
    [0x11, 0x12, 0x14, 0x18, 0x14, 0x12, 0x11],
    [0x10, 0x10, 0x10, 0x10, 0x10, 0x10, 0x1F],
    [0x11, 0x1B, 0x15, 0x15, 0x11, 0x11, 0x11],
    [0x11, 0x19, 0x15, 0x13, 0x11, 0x11, 0x11],
    [0x0E, 0x11, 0x11, 0x11, 0x11, 0x11, 0x0E],
    [0x1E, 0x11, 0x11, 0x1E, 0x10, 0x10, 0x10],
    [0x0E, 0x11, 0x11, 0x11, 0x15, 0x12, 0x0D],
    [0x1E, 0x11, 0x11, 0x1E, 0x14, 0x12, 0x11],
    [0x0F, 0x10, 0x10, 0x0E, 0x01, 0x01, 0x1E],
    [0x1F, 0x04, 0x04, 0x04, 0x04, 0x04, 0x04],
    [0x11, 0x11, 0x11, 0x11, 0x11, 0x11, 0x0E],
    [0x11, 0x11, 0x11, 0x11, 0x11, 0x0A, 0x04],
    [0x11, 0x11, 0x11, 0x15, 0x15, 0x1B, 0x11],
    [0x11, 0x11, 0x0A, 0x04, 0x0A, 0x11, 0x11],
    [0x11, 0x11, 0x0A, 0x04, 0x04, 0x04, 0x04],
    [0x1F, 0x01, 0x02, 0x04, 0x08, 0x10, 0x1F],
    [0x1F, 0x11, 0x11, 0x11, 0x11, 0x11, 0x1F],
    [0x1F, 0x11, 0x11, 0x11, 0x11, 0x11, 0x1F],
    [0x1F, 0x11, 0x11, 0x11, 0x11, 0x11, 0x1F],
    [0x1F, 0x11, 0x11, 0x11, 0x11, 0x11, 0x1F],
    [0x1F, 0x11, 0x11, 0x11, 0x11, 0x11, 0x1F],
];

/// The glyph of a byte.
pub open spec fn spec_glyph(byte: u8) -> [u8; 7] {
    if byte < 32 {
        BLANK
    } else if byte < 128 {
        FONT[byte - 32]
    } else {
        UNKNOWN
    }
}

/// The glyph of a byte.
pub fn glyph(byte: u8) -> (r: [u8; 7])
    ensures
        r == spec_glyph(byte),
{
    if byte < 32 {
        BLANK
    } else if byte < 128 {
        FONT[(byte - 32) as usize]
    } else {
        UNKNOWN
    }
}

/// The pixel in the given row and column of a glyph is set.
pub open spec fn spec_lit(rows: [u8; 7], row: int, column: int) -> bool {
    rows[row] & COLUMN_BITS[column] != 0
}

/// The pixel in the given row and column of a glyph is set.
pub fn lit(rows: &[u8; 7], row: usize, column: usize) -> (r: bool)
    requires
        row < GLYPH_ROWS,
        column < GLYPH_COLUMNS,
    ensures
        r == spec_lit(*rows, row as int, column as int),
{
    rows[row] & COLUMN_BITS[column] != 0
}

/// The strokes of a text whose bytes are those of `text` from `from` on,
/// drawn with its top left corner at `(x, y)`: the pixels of the glyphs,
/// glyph by glyph and row by row, each glyph `GLYPH_WIDTH` pixels to the
/// right of the one before it.
pub open spec fn text_strokes(text: Seq<u8>, from: int, x: int, y: int, color: u32) -> spec_fn(
    int,
) -> Stroke {
    |k: int|
        {
            let i = k / 35;
            let row = (k % 35) / 5;
            let column = k % 5;
            if spec_lit(spec_glyph(text[from + i]), row, column) {
                Some((x + i * 6 + column, y + row, color))
            } else {
                None
            }
        }
}

/// The buffer with the bytes of `text` from `from` up to `to` drawn into it.
pub open spec fn with_text(
    before: Seq<u32>,
    width: int,
    height: int,
    text: Seq<u8>,
    from: int,
    to: int,
    x: int,
    y: int,
    color: u32,
) -> Seq<u32> {
    painted(
        before,
        width,
        height,
        text_strokes(text, from, x, y, color),
        if to <= from {
            0
        } else {
            (35 * (to - from)) as nat
        },
    )
}

/// Strokes that all fall outside the buffer leave it as it was.
pub proof fn lemma_painted_outside(
    buffer: Seq<u32>,
    width: int,
    height: int,
    strokes: spec_fn(int) -> Stroke,
    count: nat,
)
    requires
        forall|k: int|
            0 <= k < count ==> (#[trigger] strokes(k) matches Some(stroke) ==> !(0 <= stroke.0
                < width && 0 <= stroke.1 < height)),
    ensures
        painted(buffer, width, height, strokes, count) == buffer,
    decreases count,
{
    if count > 0 {
        lemma_painted_outside(buffer, width, height, strokes, (count - 1) as nat);
        assert(strokes(count - 1) matches Some(stroke) ==> !(0 <= stroke.0 < width && 0
            <= stroke.1 < height));
    }
}

/// The pixel of a text that is drawn as the
/// `(i * 7 + row) * 5 + column`-th is that of glyph `i`, row `row` and
/// column `column`.
pub proof fn lemma_text_stroke(i: int, row: int, column: int)
    requires
        0 <= i,
        0 <= row < 7,
        0 <= column < 5,
    ensures
        ((i * 7 + row) * 5 + column) / 35 == i,
        (((i * 7 + row) * 5 + column) % 35) / 5 == row,
        ((i * 7 + row) * 5 + column) % 5 == column,
{
    let k = (i * 7 + row) * 5 + column;
    lemma_fundamental_div_mod_converse(k, 35, i, row * 5 + column);
    lemma_fundamental_div_mod_converse(row * 5 + column, 5, row, column);
    lemma_fundamental_div_mod_converse(k, 5, i * 7 + row, column);
}

/// Draws the bytes of `text` from `from` up to `to` in one line, with the
/// top left corner at `(x, y)`, as far as they lie inside the buffer.
pub fn draw_bytes(
    buffer: &mut [u32],
    width: usize,
    height: usize,
    text: &[u8],
    from: usize,
    to: usize,
    x: usize,
    y: usize,
    color: u32,
)
    requires
        width <= MAX_SIDE,
        height <= MAX_SIDE,
        width * height <= old(buffer)@.len(),
        from <= to <= text@.len(),
    ensures
        final(buffer)@.len() == old(buffer)@.len(),
        final(buffer)@ == with_text(
            old(buffer)@,
            width as int,
            height as int,
            text@,
            from as int,
            to as int,
            x as int,
            y as int,
            color,
        ),
{
    let ghost strokes = text_strokes(text@, from as int, x as int, y as int, color);
    if x >= width || y >= height {
        proof {
            lemma_painted_outside(
                buffer@,
                width as int,
                height as int,
                strokes,
                (35 * (to - from)) as nat,
            );
        }
        return ;
    }
    let mut i: usize = 0;
    while i < to - from
        invariant
            width <= MAX_SIDE,
            height <= MAX_SIDE,
            width * height <= buffer@.len(),
            buffer@.len() == old(buffer)@.len(),
            from <= to <= text@.len(),
            x < width,
            y < height,
            i <= to - from,
            strokes == text_strokes(text@, from as int, x as int, y as int, color),
            buffer@ == painted(old(buffer)@, width as int, height as int, strokes, (35 * i) as nat),
        decreases to - from - i,
    {
        let rows: [u8; 7] = glyph(text[from + i]);
        let mut row: usize = 0;
        while row < GLYPH_ROWS
            invariant
                width <= MAX_SIDE,
                height <= MAX_SIDE,
                width * height <= buffer@.len(),
                buffer@.len() == old(buffer)@.len(),
                from <= to <= text@.len(),
                x < width,
                y < height,
                i < to - from,
                row <= GLYPH_ROWS,
                rows == spec_glyph(text@[from + i]),
                strokes == text_strokes(text@, from as int, x as int, y as int, color),
                buffer@ == painted(
                    old(buffer)@,
                    width as int,
                    height as int,
                    strokes,
                    ((i * 7 + row) * 5) as nat,
                ),
            decreases GLYPH_ROWS - row,
        {
            let mut column: usize = 0;
            while column < GLYPH_COLUMNS
                invariant
                    width <= MAX_SIDE,
                    height <= MAX_SIDE,
                    width * height <= buffer@.len(),
                    buffer@.len() == old(buffer)@.len(),
                    from <= to <= text@.len(),
                    x < width,
                    y < height,
                    i < to - from,
                    row < GLYPH_ROWS,
                    column <= GLYPH_COLUMNS,
                    rows == spec_glyph(text@[from + i]),
                    strokes == text_strokes(text@, from as int, x as int, y as int, color),
                    buffer@ == painted(
                        old(buffer)@,
                        width as int,
                        height as int,
                        strokes,
                        ((i * 7 + row) * 5 + column) as nat,
                    ),
                decreases GLYPH_COLUMNS - column,
            {
                proof {
                    lemma_text_stroke(i as int, row as int, column as int);
                }
                let ghost before = buffer@;
                if lit(&rows, row, column) {
                    // The pixel lies `i * 6 + column` to the right of `x`:
                    // on the screen only where that is less than what is
                    // left of the width.
                    let room: u128 = (width - x) as u128;
                    let offset: u128 = i as u128 * GLYPH_WIDTH as u128 + column as u128;
                    if offset < room {
                        put_pixel(
                            buffer,
                            width,
                            height,
                            (x as u128 + offset) as i64,
                            (y + row) as i64,
                            color,
                        );
                    }
                    assert(buffer@ == plotted(
                        before,
                        width as int,
                        height as int,
                        x + i * 6 + column,
                        y + row,
                        color,
                    ));
                }
                column += 1;
            }
            row += 1;
        }
        i += 1;
    }
}

/// Draws `text` in one line, with the top left corner at `(x, y)`, as far
/// as it lies inside the buffer.
pub fn draw_text(
    buffer: &mut [u32],
    width: usize,
    height: usize,
    text: &str,
    x: usize,
    y: usize,
    color: u32,
)
    requires
        width <= MAX_SIDE,
        height <= MAX_SIDE,
        width * height <= old(buffer)@.len(),
    ensures
        final(buffer)@.len() == old(buffer)@.len(),
        final(buffer)@ == with_text(
            old(buffer)@,
            width as int,
            height as int,
            text.spec_bytes(),
            0,
            text.spec_bytes().len() as int,
            x as int,
            y as int,
            color,
        ),
{
    let bytes = text.as_bytes();
    draw_bytes(buffer, width, height, bytes, 0, bytes.len(), x, y, color);
}

} // verus!

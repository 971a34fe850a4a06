//! Drawing of turned shapes: what marks the player and its thruster.
//!
//! Such a shape is drawn pixel by pixel: its own pixels are walked row by
//! row, each is turned about the centre, and the pixel it comes to lie on is
//! plotted. Two pixels of the shape may come to lie on one pixel of the
//! buffer, so what ends up in the buffer is told as the strokes in their
//! order.

use vstd::prelude::*;
use vstd::arithmetic::div_mod::lemma_fundamental_div_mod_converse;
use crate::render::{lemma_pixel_index, MAX_SIDE};
use crate::scalar::{
    answers, cosine, difference, from_integer, greater, is_arithmetic, magnitude, product,
    quotient, sine, spec_cosine, spec_difference, spec_from_integer, spec_greater,
    spec_magnitude, spec_product, spec_quotient, spec_sine, spec_sum, spec_to_signed, sum,
    to_signed, Arithmetic, Op, ONE, TWO,
};

verus! {

/// A quarter turn, as the player's marker takes it: the pattern of 1.5707.
pub const QUARTER_TURN: u64 = 0x3FF9_2196_52BD_3C36;

/// One stroke of a drawing: the pixel it plots and the colour, or nothing.
pub type Stroke = Option<(int, int, u32)>;

/// The buffer with the pixel `(x, y)` plotted in `color`. A pixel outside
/// the buffer leaves no mark.
pub open spec fn plotted(
    buffer: Seq<u32>,
    width: int,
    height: int,
    x: int,
    y: int,
    color: u32,
) -> Seq<u32> {
    if 0 <= x < width && 0 <= y < height {
        buffer.update(y * width + x, color)
    } else {
        buffer
    }
}

/// The buffer after the first `count` strokes of a drawing, made one after
/// the other.
pub open spec fn painted(
    buffer: Seq<u32>,
    width: int,
    height: int,
    strokes: spec_fn(int) -> Stroke,
    count: nat,
) -> Seq<u32>
    decreases count,
{
    if count == 0 {
        buffer
    } else {
        let before = painted(buffer, width, height, strokes, (count - 1) as nat);
        match strokes(count - 1) {
            Some((x, y, color)) => plotted(before, width, height, x, y, color),
            None => before,
        }
    }
}

/// Plots the pixel `(x, y)` in `color`.
pub fn put_pixel(buffer: &mut [u32], width: usize, height: usize, x: i64, y: i64, color: u32)
    requires
        width <= MAX_SIDE,
        height <= MAX_SIDE,
        width * height <= old(buffer)@.len(),
    ensures
        final(buffer)@.len() == old(buffer)@.len(),
        final(buffer)@ == plotted(
            old(buffer)@,
            width as int,
            height as int,
            x as int,
            y as int,
            color,
        ),
{
    if x >= 0 && x < width as i64 && y >= 0 && y < height as i64 {
        proof {
            assert(buffer.len() == buffer@.len());
            lemma_pixel_index(x as int, y as int, width as int, height as int);
            assert(0 <= y * width) by (nonlinear_arith)
                requires
                    0 <= y,
                    0 <= width,
            ;
        }
        let index: usize = y as usize * width + x as usize;
        buffer[index] = color;
    }
}

/// Where the pixel at the offset `(x, y)` from the centre comes to lie once
/// it has been turned by the angle whose cosine and sine are given: at the
/// offset `(x * cos - y * sin, x * sin + y * cos)`, each cut to an integer.
pub open spec fn turned(reals: Arithmetic, x: int, y: int, cos: u64, sin: u64) -> (int, int) {
    (
        spec_to_signed(
            reals,
            spec_difference(
                reals,
                spec_product(reals, spec_from_integer(reals, x), cos),
                spec_product(reals, spec_from_integer(reals, y), sin),
            ),
        ),
        spec_to_signed(
            reals,
            spec_sum(
                reals,
                spec_product(reals, spec_from_integer(reals, x), sin),
                spec_product(reals, spec_from_integer(reals, y), cos),
            ),
        ),
    )
}

/// Where the pixel at the offset `(x, y)` from the centre comes to lie once
/// it has been turned.
pub fn turn<R: Fn(Op, u64, u64) -> u64>(reals: &R, x: i32, y: i32, cos: u64, sin: u64) -> (r: (
    i32,
    i32,
))
    requires
        is_arithmetic(*reals),
    ensures
        (r.0 as int, r.1 as int) == turned(answers(*reals), x as int, y as int, cos, sin),
{
    let fx: u64 = from_integer(reals, x as i64);
    let fy: u64 = from_integer(reals, y as i64);
    let rx: i32 = to_signed(
        reals,
        difference(reals, product(reals, fx, cos), product(reals, fy, sin)),
    );
    let ry: i32 = to_signed(reals, sum(reals, product(reals, fx, sin), product(reals, fy, cos)));
    (rx, ry)
}

/// The cell of a grid of `side` columns that is walked as the `k`-th, the
/// grid being walked row by row from `(-half_width, -half_height)`.
pub open spec fn cell(k: int, half_width: int, half_height: int) -> (int, int) {
    let side = 2 * half_width + 1;
    (k % side - half_width, k / side - half_height)
}

/// The cell `(x, y)` of the grid is walked as the
/// `(y + half_height) * side + (x + half_width)`-th.
pub proof fn lemma_cell(x: int, y: int, half_width: int, half_height: int)
    requires
        -half_width <= x <= half_width,
        -half_height <= y,
    ensures
        0 <= (y + half_height) * (2 * half_width + 1) + (x + half_width),
        cell(
            (y + half_height) * (2 * half_width + 1) + (x + half_width),
            half_width,
            half_height,
        ) == (x, y),
{
    let side = 2 * half_width + 1;
    let k = (y + half_height) * side + (x + half_width);
    assert(0 <= (y + half_height) * side) by (nonlinear_arith)
        requires
            0 <= y + half_height,
            0 < side,
    ;
    lemma_fundamental_div_mod_converse(k, side, y + half_height, x + half_width);
}

/// The strokes of a turned rectangle: every pixel of the rectangle from
/// `-rect_width` to `rect_width` and from `-rect_height` to `rect_height`,
/// row by row, turned about the centre `(cx, cy)`.
pub open spec fn rect_strokes(
    reals: Arithmetic,
    cx: int,
    cy: int,
    rect_width: int,
    rect_height: int,
    rotation: u64,
    color: u32,
) -> spec_fn(int) -> Stroke {
    |k: int|
        {
            let at = cell(k, rect_width, rect_height);
            let to = turned(
                reals,
                at.0,
                at.1,
                spec_cosine(reals, rotation),
                spec_sine(reals, rotation),
            );
            Some((cx + to.0, cy + to.1, color))
        }
}

/// Number of cells of the grid from `-half_width` to `half_width` and from
/// `-half_height` to `half_height`; none where a half is negative.
pub open spec fn cells(half_width: int, half_height: int) -> nat {
    if half_width < 0 || half_height < 0 {
        0
    } else {
        ((2 * half_width + 1) * (2 * half_height + 1)) as nat
    }
}

/// Draws the rectangle that reaches `rect_width` to either side of the
/// centre `(cx, cy)` and `rect_height` above and below it, turned about the
/// centre by `rotation` radians.
pub fn draw_rotated_rect<R: Fn(Op, u64, u64) -> u64>(
    buffer: &mut [u32],
    width: usize,
    height: usize,
    cx: i32,
    cy: i32,
    rect_width: i32,
    rect_height: i32,
    rotation: u64,
    color: u32,
    reals: &R,
)
    requires
        is_arithmetic(*reals),
        width <= MAX_SIDE,
        height <= MAX_SIDE,
        width * height <= old(buffer)@.len(),
    ensures
        final(buffer)@.len() == old(buffer)@.len(),
        final(buffer)@ == painted(
            old(buffer)@,
            width as int,
            height as int,
            rect_strokes(
                answers(*reals),
                cx as int,
                cy as int,
                rect_width as int,
                rect_height as int,
                rotation,
                color,
            ),
            cells(rect_width as int, rect_height as int),
        ),
{
    let cos_r: u64 = cosine(reals, rotation);
    let sin_r: u64 = sine(reals, rotation);
    if rect_width < 0 || rect_height < 0 {
        return ;
    }
    let ghost strokes = rect_strokes(
        answers(*reals),
        cx as int,
        cy as int,
        rect_width as int,
        rect_height as int,
        rotation,
        color,
    );
    let ghost side = 2 * rect_width + 1;
    let mut rows: i64 = 0;
    while rows <= 2 * rect_height as i64
        invariant
            is_arithmetic(*reals),
            width <= MAX_SIDE,
            height <= MAX_SIDE,
            width * height <= buffer@.len(),
            buffer@.len() == old(buffer)@.len(),
            0 <= rect_width,
            0 <= rect_height,
            side == 2 * rect_width + 1,
            0 <= rows <= 2 * rect_height + 1,
            cos_r == spec_cosine(answers(*reals), rotation),
            sin_r == spec_sine(answers(*reals), rotation),
            0 <= rows * side,
            strokes == rect_strokes(
                answers(*reals),
                cx as int,
                cy as int,
                rect_width as int,
                rect_height as int,
                rotation,
                color,
            ),
            buffer@ == painted(
                old(buffer)@,
                width as int,
                height as int,
                strokes,
                (rows * side) as nat,
            ),
        decreases 2 * rect_height + 1 - rows,
    {
        let local_y: i32 = (rows - rect_height as i64) as i32;
        let mut columns: i64 = 0;
        while columns <= 2 * rect_width as i64
            invariant
                is_arithmetic(*reals),
                width <= MAX_SIDE,
                height <= MAX_SIDE,
                width * height <= buffer@.len(),
                buffer@.len() == old(buffer)@.len(),
                0 <= rect_width,
                0 <= rect_height,
                side == 2 * rect_width + 1,
                0 <= rows <= 2 * rect_height,
                local_y == rows - rect_height,
                0 <= columns <= 2 * rect_width + 1,
                cos_r == spec_cosine(answers(*reals), rotation),
                sin_r == spec_sine(answers(*reals), rotation),
                0 <= rows * side,
                strokes == rect_strokes(
                    answers(*reals),
                    cx as int,
                    cy as int,
                    rect_width as int,
                    rect_height as int,
                    rotation,
                    color,
                ),
                buffer@ == painted(
                    old(buffer)@,
                    width as int,
                    height as int,
                    strokes,
                    (rows * side + columns) as nat,
                ),
            decreases 2 * rect_width + 1 - columns,
        {
            let local_x: i32 = (columns - rect_width as i64) as i32;
            let (rotated_x, rotated_y) = turn(reals, local_x, local_y, cos_r, sin_r);
            proof {
                lemma_cell(local_x as int, local_y as int, rect_width as int, rect_height as int);
                assert(strokes(rows * side + columns) == Some(
                    (cx + rotated_x, cy + rotated_y, color),
                ));
            }
            put_pixel(
                buffer,
                width,
                height,
                cx as i64 + rotated_x as i64,
                cy as i64 + rotated_y as i64,
                color,
            );
            columns += 1;
        }
        proof {
            assert((rows + 1) * side == rows * side + side) by (nonlinear_arith);
        }
        rows += 1;
    }
    proof {
        assert((2 * rect_height + 1) * side == (2 * rect_width + 1) * (2 * rect_height + 1))
            by (nonlinear_arith)
            requires
                side == 2 * rect_width + 1,
        ;
    }
}

/// The pixel at the offset `(x, y)` belongs to the triangle whose tip is at
/// `(length, 0)` and whose base runs from `(-length, -half_base)` to
/// `(-length, half_base)`: it lies on the inner side of both slanted edges
/// and not beyond the tip.
pub open spec fn in_triangle(x: int, y: int, length: int, half_base: int) -> bool {
    &&& (x + length) * half_base >= y * (2 * length)
    &&& (x + length) * half_base >= -y * (2 * length)
    &&& x <= length
}

/// The strokes of a turned triangle: every pixel of the triangle, row by
/// row, turned about the centre `(cx, cy)` by `rotation` and a quarter turn.
pub open spec fn triangle_strokes(
    reals: Arithmetic,
    cx: int,
    cy: int,
    length: int,
    half_base: int,
    rotation: u64,
    color: u32,
) -> spec_fn(int) -> Stroke {
    |k: int|
        {
            let at = cell(k, length, half_base);
            if in_triangle(at.0, at.1, length, half_base) {
                let angle = spec_sum(reals, rotation, QUARTER_TURN);
                let to = turned(
                    reals,
                    at.0,
                    at.1,
                    spec_cosine(reals, angle),
                    spec_sine(reals, angle),
                );
                Some((cx + to.0, cy + to.1, color))
            } else {
                None
            }
        }
}

/// Draws the triangle that marks the player: its tip lies `length` from the
/// centre `(cx, cy)`, its base as far on the other side and `half_base` to
/// either side of the axis, and it is turned about the centre by `rotation`
/// radians and a quarter turn.
pub fn draw_rotated_triangle<R: Fn(Op, u64, u64) -> u64>(
    buffer: &mut [u32],
    width: usize,
    height: usize,
    cx: i32,
    cy: i32,
    length: i32,
    half_base: i32,
    rotation: u64,
    color: u32,
    reals: &R,
)
    requires
        is_arithmetic(*reals),
        width <= MAX_SIDE,
        height <= MAX_SIDE,
        width * height <= old(buffer)@.len(),
    ensures
        final(buffer)@.len() == old(buffer)@.len(),
        final(buffer)@ == painted(
            old(buffer)@,
            width as int,
            height as int,
            triangle_strokes(
                answers(*reals),
                cx as int,
                cy as int,
                length as int,
                half_base as int,
                rotation,
                color,
            ),
            cells(length as int, half_base as int),
        ),
{
    let adj_rot: u64 = sum(reals, rotation, QUARTER_TURN);
    let cos_r: u64 = cosine(reals, adj_rot);
    let sin_r: u64 = sine(reals, adj_rot);
    if length < 0 || half_base < 0 {
        return ;
    }
    let ghost strokes = triangle_strokes(
        answers(*reals),
        cx as int,
        cy as int,
        length as int,
        half_base as int,
        rotation,
        color,
    );
    let ghost side = 2 * length + 1;
    let mut rows: i64 = 0;
    while rows <= 2 * half_base as i64
        invariant
            is_arithmetic(*reals),
            width <= MAX_SIDE,
            height <= MAX_SIDE,
            width * height <= buffer@.len(),
            buffer@.len() == old(buffer)@.len(),
            0 <= length,
            0 <= half_base,
            side == 2 * length + 1,
            0 <= rows <= 2 * half_base + 1,
            adj_rot == spec_sum(answers(*reals), rotation, QUARTER_TURN),
            cos_r == spec_cosine(answers(*reals), adj_rot),
            sin_r == spec_sine(answers(*reals), adj_rot),
            0 <= rows * side,
            strokes == triangle_strokes(
                answers(*reals),
                cx as int,
                cy as int,
                length as int,
                half_base as int,
                rotation,
                color,
            ),
            buffer@ == painted(
                old(buffer)@,
                width as int,
                height as int,
                strokes,
                (rows * side) as nat,
            ),
        decreases 2 * half_base + 1 - rows,
    {
        let ly: i64 = rows - half_base as i64;
        let mut columns: i64 = 0;
        while columns <= 2 * length as i64
            invariant
                is_arithmetic(*reals),
                width <= MAX_SIDE,
                height <= MAX_SIDE,
                width * height <= buffer@.len(),
                buffer@.len() == old(buffer)@.len(),
                0 <= length,
                0 <= half_base,
                side == 2 * length + 1,
                0 <= rows <= 2 * half_base,
                ly == rows - half_base,
                0 <= columns <= 2 * length + 1,
                adj_rot == spec_sum(answers(*reals), rotation, QUARTER_TURN),
                cos_r == spec_cosine(answers(*reals), adj_rot),
                sin_r == spec_sine(answers(*reals), adj_rot),
                0 <= rows * side,
                strokes == triangle_strokes(
                    answers(*reals),
                    cx as int,
                    cy as int,
                    length as int,
                    half_base as int,
                    rotation,
                    color,
                ),
                buffer@ == painted(
                    old(buffer)@,
                    width as int,
                    height as int,
                    strokes,
                    (rows * side + columns) as nat,
                ),
            decreases 2 * length + 1 - columns,
        {
            let lx: i64 = columns - length as i64;
            proof {
                lemma_cell(lx as int, ly as int, length as int, half_base as int);
                assert(-0x8000_0000_0000_0000 < (lx + length) * half_base < 0x8000_0000_0000_0000
                    && -0x8000_0000_0000_0000 < ly * (2 * length) < 0x8000_0000_0000_0000
                    && -0x8000_0000_0000_0000 < (-ly) * (2 * length) < 0x8000_0000_0000_0000)
                    by (nonlinear_arith)
                    requires
                        0 <= lx + length <= 2 * 0x7FFF_FFFF,
                        0 <= half_base <= 0x7FFF_FFFF,
                        -0x7FFF_FFFF <= ly <= 0x7FFF_FFFF,
                        0 <= 2 * length <= 2 * 0x7FFF_FFFF,
                ;
            }
            let inside_left: bool = (lx + length as i64) * half_base as i64 >= ly * (2
                * length as i64);
            let inside_right: bool = (lx + length as i64) * half_base as i64 >= -ly * (2
                * length as i64);
            let inside_back: bool = lx <= length as i64;
            if inside_left && inside_right && inside_back {
                let (rx, ry) = turn(reals, lx as i32, ly as i32, cos_r, sin_r);
                proof {
                    assert(strokes(rows * side + columns) == Some((cx + rx, cy + ry, color)));
                }
                put_pixel(
                    buffer,
                    width,
                    height,
                    cx as i64 + rx as i64,
                    cy as i64 + ry as i64,
                    color,
                );
            } else {
                proof {
                    assert(strokes(rows * side + columns) == None::<(int, int, u32)>);
                }
            }
            columns += 1;
        }
        proof {
            assert((rows + 1) * side == rows * side + side) by (nonlinear_arith);
        }
        rows += 1;
    }
    proof {
        assert((2 * half_base + 1) * side == (2 * length + 1) * (2 * half_base + 1))
            by (nonlinear_arith)
            requires
                side == 2 * length + 1,
        ;
    }
}

/// The colour of the flame near the player.
pub const FLAME_YELLOW: u32 = 0xFFFF00;

/// The colour of the flame far from the player.
pub const FLAME_ORANGE: u32 = 0xFF8800;

/// The strokes of the flame of the thruster. The flame is `length` rows
/// long and starts 5 rows behind the centre; each row reaches 2 pixels to
/// either side, less what the row is tapered by: a pixel at the offset `x`
/// is left out where `|x| > 2 * (1 - row / length)`. The first half of the
/// rows is yellow, the rest orange.
pub open spec fn flame_strokes(
    reals: Arithmetic,
    cx: int,
    cy: int,
    rotation: u64,
    length: int,
) -> spec_fn(int) -> Stroke {
    |k: int|
        {
            let row = k / 5;
            let x = k % 5 - 2;
            let width_factor = spec_difference(
                reals,
                ONE,
                spec_quotient(
                    reals,
                    spec_from_integer(reals, row),
                    spec_from_integer(reals, length),
                ),
            );
            if spec_greater(
                spec_magnitude(spec_from_integer(reals, x)),
                spec_product(reals, TWO, width_factor),
            ) {
                None
            } else {
                let to = turned(
                    reals,
                    x,
                    5 + row,
                    spec_cosine(reals, rotation),
                    spec_sine(reals, rotation),
                );
                Some(
                    (
                        cx + to.0,
                        cy + to.1,
                        if row < length / 2 {
                            FLAME_YELLOW
                        } else {
                            FLAME_ORANGE
                        },
                    ),
                )
            }
        }
}

/// Draws the flame of the thruster behind the player at `(cx, cy)`, turned
/// about the player by `rotation` radians.
pub fn draw_thrust_flame<R: Fn(Op, u64, u64) -> u64>(
    buffer: &mut [u32],
    width: usize,
    height: usize,
    cx: i32,
    cy: i32,
    rotation: u64,
    length: i32,
    reals: &R,
)
    requires
        is_arithmetic(*reals),
        width <= MAX_SIDE,
        height <= MAX_SIDE,
        width * height <= old(buffer)@.len(),
        length <= 0x7FFF_FFFA,
    ensures
        final(buffer)@.len() == old(buffer)@.len(),
        final(buffer)@ == painted(
            old(buffer)@,
            width as int,
            height as int,
            flame_strokes(answers(*reals), cx as int, cy as int, rotation, length as int),
            if length < 0 {
                0
            } else {
                (5 * length) as nat
            },
        ),
{
    let cos_r: u64 = cosine(reals, rotation);
    let sin_r: u64 = sine(reals, rotation);
    let ghost strokes = flame_strokes(
        answers(*reals),
        cx as int,
        cy as int,
        rotation,
        length as int,
    );
    let mut i: i32 = 0;
    while i < length
        invariant
            is_arithmetic(*reals),
            width <= MAX_SIDE,
            height <= MAX_SIDE,
            width * height <= buffer@.len(),
            buffer@.len() == old(buffer)@.len(),
            length <= 0x7FFF_FFFA,
            0 <= i,
            length >= 0 ==> i <= length,
            length < 0 ==> i == 0,
            cos_r == spec_cosine(answers(*reals), rotation),
            sin_r == spec_sine(answers(*reals), rotation),
            strokes == flame_strokes(
                answers(*reals),
                cx as int,
                cy as int,
                rotation,
                length as int,
            ),
            buffer@ == painted(old(buffer)@, width as int, height as int, strokes, (5 * i) as nat),
        decreases length - i,
    {
        let local_y: i32 = 5 + i;
        let mut column: i32 = 0;
        while column < 5
            invariant
                is_arithmetic(*reals),
                width <= MAX_SIDE,
                height <= MAX_SIDE,
                width * height <= buffer@.len(),
                buffer@.len() == old(buffer)@.len(),
                0 <= i < length <= 0x7FFF_FFFA,
                local_y == 5 + i,
                0 <= column <= 5,
                cos_r == spec_cosine(answers(*reals), rotation),
                sin_r == spec_sine(answers(*reals), rotation),
                strokes == flame_strokes(
                    answers(*reals),
                    cx as int,
                    cy as int,
                    rotation,
                    length as int,
                ),
                buffer@ == painted(
                    old(buffer)@,
                    width as int,
                    height as int,
                    strokes,
                    (5 * i + column) as nat,
                ),
            decreases 5 - column,
        {
            let local_x: i32 = column - 2;
            proof {
                lemma_fundamental_div_mod_converse(5 * i + column, 5, i as int, column as int);
            }
            let width_factor: u64 = difference(
                reals,
                ONE,
                quotient(reals, from_integer(reals, i as i64), from_integer(reals, length as i64)),
            );
            let reach: u64 = magnitude(from_integer(reals, local_x as i64));
            if !greater(reach, product(reals, TWO, width_factor)) {
                let (rotated_x, rotated_y) = turn(reals, local_x, local_y, cos_r, sin_r);
                let color: u32 = if i < length / 2 {
                    FLAME_YELLOW
                } else {
                    FLAME_ORANGE
                };
                proof {
                    assert(strokes(5 * i + column) == Some(
                        (cx + rotated_x, cy + rotated_y, color),
                    ));
                }
                put_pixel(
                    buffer,
                    width,
                    height,
                    cx as i64 + rotated_x as i64,
                    cy as i64 + rotated_y as i64,
                    color,
                );
            } else {
                proof {
                    assert(strokes(5 * i + column) == None::<(int, int, u32)>);
                }
            }
            column += 1;
        }
        i += 1;
    }
}

} // verus!

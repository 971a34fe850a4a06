//! What drawing needs of the simulation, and the drawing of plain shapes
//! into a pixel buffer.

use vstd::prelude::*;
use vstd::arithmetic::div_mod::{lemma_fundamental_div_mod, lemma_fundamental_div_mod_converse};
use crate::game::{Game, GameView};
use crate::planet::Planet;
use crate::scalar::{
    answers, greater, is_arithmetic, product, quotient, spec_greater, spec_product, spec_quotient,
    Arithmetic, Op, ZERO,
};
use crate::vector2::Vector2;

verus! {

/// How strongly one passive body pulls at a point: its distance from the
/// point and the acceleration it causes there, both binary64 bit patterns.
#[derive(Clone, Copy, PartialEq, Eq, Structural, Debug)]
pub struct Pull {
    pub distance: u64,
    pub acceleration: u64,
}

impl Pull {
    /// The body is away from the point and pulls at it.
    pub open spec fn counts(self) -> bool {
        spec_greater(self.distance, ZERO) && spec_greater(self.acceleration, ZERO)
    }
}

/// `index` is the dominant body among `pulls`: the first of the bodies that
/// count whose acceleration none of them exceeds; 0 when no body counts.
pub open spec fn is_dominant(pulls: Seq<Pull>, index: int) -> bool {
    if exists|j: int| 0 <= j < pulls.len() && (#[trigger] pulls[j]).counts() {
        &&& 0 <= index < pulls.len()
        &&& pulls[index].counts()
        &&& forall|j: int|
            0 <= j < pulls.len() && (#[trigger] pulls[j]).counts() ==> !spec_greater(
                pulls[j].acceleration,
                pulls[index].acceleration,
            )
        &&& forall|j: int|
            0 <= j < index && (#[trigger] pulls[j]).counts() ==> spec_greater(
                pulls[index].acceleration,
                pulls[j].acceleration,
            )
    } else {
        index == 0
    }
}

/// There is one dominant body only.
pub proof fn law_dominant_is_unique(pulls: Seq<Pull>, a: int, b: int)
    requires
        is_dominant(pulls, a),
        is_dominant(pulls, b),
    ensures
        a == b,
{
    if exists|j: int| 0 <= j < pulls.len() && (#[trigger] pulls[j]).counts() {
        if a < b {
            assert(pulls[a].counts());
        } else if b < a {
            assert(pulls[b].counts());
        }
    }
}

/// How strongly `planet` pulls at `position`: its distance from there, and
/// the acceleration `G * m / d^2` that it causes there.
pub open spec fn spec_pull(
    reals: Arithmetic,
    big_gravity: u64,
    planet: Planet,
    position: Vector2,
) -> Pull {
    let distance = planet.position.spec_subtract(position, reals).spec_norm(reals);
    Pull {
        distance,
        acceleration: spec_quotient(
            reals,
            spec_product(reals, big_gravity, planet.mass),
            spec_product(reals, distance, distance),
        ),
    }
}

/// How strongly each of the passive bodies pulls at `position`.
pub open spec fn pulls_at(
    reals: Arithmetic,
    big_gravity: u64,
    planets: Seq<Planet>,
    position: Vector2,
) -> Seq<Pull> {
    Seq::new(planets.len(), |i: int| spec_pull(reals, big_gravity, planets[i], position))
}

/// How strongly each of the passive bodies of a session pulls at `position`.
pub open spec fn spec_pulls<R: Fn(Op, u64, u64) -> u64>(
    game: GameView<R>,
    position: Vector2,
) -> Seq<Pull> {
    pulls_at(answers(game.reals), game.big_gravity, game.planets, position)
}

/// The passive body that pulls hardest at `position`, as the bodies are
/// now. Ties go to the body that comes first, and so does the choice when no
/// body pulls.
pub fn find_dominant_planet<R: Fn(Op, u64, u64) -> u64>(game: &Game<R>, position: &Vector2) -> (r:
    usize)
    requires
        game.wf(),
    ensures
        is_dominant(spec_pulls(game@, *position), r as int),
{
    let ghost pulls = spec_pulls(game@, *position);
    let planets = game.planets();
    let reals = game.reals();
    let mut max_accel: u64 = ZERO;
    let mut dominant_idx: usize = 0;
    let mut i: usize = 0;
    while i < planets.len()
        invariant
            is_arithmetic(*reals),
            answers(*reals) == answers(game@.reals),
            planets@ == game@.planets,
            pulls == spec_pulls(game@, *position),
            i <= planets@.len(),
            (forall|j: int| 0 <= j < i ==> !(#[trigger] pulls[j]).counts()) ==> max_accel == ZERO
                && dominant_idx == 0,
            (exists|j: int| 0 <= j < i && (#[trigger] pulls[j]).counts()) ==> {
                &&& dominant_idx < i
                &&& pulls[dominant_idx as int].counts()
                &&& max_accel == pulls[dominant_idx as int].acceleration
                &&& forall|j: int|
                    0 <= j < i && (#[trigger] pulls[j]).counts() ==> !spec_greater(
                        pulls[j].acceleration,
                        max_accel,
                    )
                &&& forall|j: int|
                    0 <= j < dominant_idx && (#[trigger] pulls[j]).counts() ==> spec_greater(
                        max_accel,
                        pulls[j].acceleration,
                    )
            },
        decreases planets@.len() - i,
    {
        let diff = planets[i].position.subtract(position, reals);
        let distance: u64 = diff.magnitude(reals);
        assert(pulls[i as int] == spec_pull(
            answers(game@.reals),
            game@.big_gravity,
            game@.planets[i as int],
            *position,
        ));
        assert(distance == pulls[i as int].distance);
        if greater(distance, ZERO) {
            let accel: u64 = quotient(
                reals,
                product(reals, game.big_gravity(), planets[i].mass),
                product(reals, distance, distance),
            );
            if greater(accel, max_accel) {
                max_accel = accel;
                dominant_idx = i;
            }
        }
        i += 1;
    }
    dominant_idx
}

/// The largest width and height of a pixel buffer that can be drawn into.
pub const MAX_SIDE: usize = 0x7FFF_FFFF;

/// The pixel in column `x` of row `y` has the index `y * width + x`, and no
/// other pixel has it.
pub proof fn lemma_pixel_index(x: int, y: int, width: int, height: int)
    requires
        0 <= x < width,
        0 <= y < height,
    ensures
        0 <= y * width + x < width * height,
        (y * width + x) % width == x,
        (y * width + x) / width == y,
{
    assert(0 <= y * width + x < width * height) by (nonlinear_arith)
        requires
            0 <= x < width,
            0 <= y < height,
    ;
    lemma_fundamental_div_mod_converse(y * width + x, width, y, x);
}

/// Every index below `width * height` is the index of one pixel.
pub proof fn lemma_index_pixel(i: int, width: int, height: int)
    requires
        0 <= i < width * height,
        0 < width,
    ensures
        0 <= i % width < width,
        0 <= i / width < height,
        i == (i / width) * width + i % width,
{
    lemma_fundamental_div_mod(i, width);
    let q = i / width;
    let r = i % width;
    assert(i == q * width + r) by (nonlinear_arith)
        requires
            i == width * q + r,
    ;
    assert(0 <= q < height) by (nonlinear_arith)
        requires
            0 <= i < width * height,
            i == q * width + r,
            0 <= r < width,
    ;
}

/// The offset `(dx, dy)` from a centre lies in the disc of the given radius.
pub open spec fn in_disc(dx: int, dy: int, radius: int) -> bool {
    &&& -radius <= dx <= radius
    &&& -radius <= dy <= radius
    &&& dx * dx + dy * dy <= radius * radius
}

/// The offset `(dx, dy)` comes before `(at_dx, at_dy)` when offsets are
/// walked row by row.
pub open spec fn walked(dx: int, dy: int, at_dx: int, at_dy: int) -> bool {
    dy < at_dy || (dy == at_dy && dx < at_dx)
}

/// Fills the disc of the given centre and radius with `color`, as far as it
/// lies inside the buffer. The buffer holds `height` rows of `width` pixels.
pub fn draw_circle(
    buffer: &mut [u32],
    width: usize,
    height: usize,
    cx: i32,
    cy: i32,
    radius: i32,
    color: u32,
)
    requires
        width <= MAX_SIDE,
        height <= MAX_SIDE,
        width * height <= old(buffer)@.len(),
    ensures
        final(buffer)@.len() == old(buffer)@.len(),
        forall|i: int|
            0 <= i < old(buffer)@.len() ==> #[trigger] final(buffer)@[i] == if i < width * height
                && in_disc(i % (width as int) - cx, i / (width as int) - cy, radius as int) {
                color
            } else {
                old(buffer)@[i]
            },
{
    let r: i64 = radius as i64;
    let mut dy: i64 = -r;
    while dy <= r
        invariant
            r == radius,
            buffer.len() == buffer@.len(),
            -r <= dy,
            r >= 0 ==> dy <= r + 1,
            width <= MAX_SIDE,
            height <= MAX_SIDE,
            width * height <= buffer@.len(),
            buffer@.len() == old(buffer)@.len(),
            forall|i: int|
                0 <= i < buffer@.len() ==> #[trigger] buffer@[i] == if i < width * height
                    && in_disc(i % (width as int) - cx, i / (width as int) - cy, r as int)
                    && i / (width as int) - cy < dy {
                    color
                } else {
                    old(buffer)@[i]
                },
        decreases r - dy + 1,
    {
        let ghost row = dy;
        let mut dx: i64 = -r;
        while dx <= r
            invariant
                r == radius,
                buffer.len() == buffer@.len(),
                dy == row,
                -r <= dy <= r,
                -r <= dx <= r + 1,
                width <= MAX_SIDE,
                height <= MAX_SIDE,
                width * height <= buffer@.len(),
                buffer@.len() == old(buffer)@.len(),
                forall|i: int|
                    0 <= i < buffer@.len() ==> #[trigger] buffer@[i] == if i < width * height
                        && in_disc(i % (width as int) - cx, i / (width as int) - cy, r as int)
                        && walked(
                        i % (width as int) - cx,
                        i / (width as int) - cy,
                        dx as int,
                        dy as int,
                    ) {
                        color
                    } else {
                        old(buffer)@[i]
                    },
            decreases r - dx + 1,
        {
            assert(0 <= dx * dx <= 0x7FFF_FFFF * 0x7FFF_FFFF && 0 <= dy * dy <= 0x7FFF_FFFF
                * 0x7FFF_FFFF && 0 <= r * r <= 0x7FFF_FFFF * 0x7FFF_FFFF) by (nonlinear_arith)
                requires
                    -0x7FFF_FFFF <= dx <= 0x7FFF_FFFF,
                    -0x7FFF_FFFF <= dy <= 0x7FFF_FFFF,
                    0 <= r <= 0x7FFF_FFFF,
            ;
            let ghost before = buffer@;
            let px: i64 = cx as i64 + dx;
            let py: i64 = cy as i64 + dy;
            let inside: bool = dx * dx + dy * dy <= r * r && px >= 0 && px < width as i64 && py >= 0
                && py < height as i64;
            if inside {
                proof {
                    lemma_pixel_index(px as int, py as int, width as int, height as int);
                    assert(0 <= py * width) by (nonlinear_arith)
                        requires
                            0 <= py,
                            0 <= width,
                    ;
                }
                let index: usize = py as usize * width + px as usize;
                buffer[index] = color;
            }
            proof {
                assert forall|i: int| 0 <= i < buffer@.len() implies #[trigger] buffer@[i] == if i
                    < width * height && in_disc(
                    i % (width as int) - cx,
                    i / (width as int) - cy,
                    r as int,
                ) && walked(
                    i % (width as int) - cx,
                    i / (width as int) - cy,
                    dx + 1,
                    dy as int,
                ) {
                    color
                } else {
                    old(buffer)@[i]
                } by {
                    if i < width * height {
                        assert(width > 0) by (nonlinear_arith)
                            requires
                                0 <= i < width * height,
                                0 <= width,
                        ;
                        lemma_index_pixel(i, width as int, height as int);
                        if inside {
                            lemma_pixel_index(px as int, py as int, width as int, height as int);
                        }
                    }
                    assert(buffer@[i] == if inside && i == py * width + px {
                        color
                    } else {
                        before[i]
                    });
                }
            }
            dx += 1;
        }
        dy += 1;
    }
    proof {
        assert forall|i: int| 0 <= i < old(buffer)@.len() implies #[trigger] buffer@[i] == if i
            < width * height && in_disc(
            i % (width as int) - cx,
            i / (width as int) - cy,
            radius as int,
        ) {
            color
        } else {
            old(buffer)@[i]
        } by {
            assert(buffer@[i] == if i < width * height && in_disc(
                i % (width as int) - cx,
                i / (width as int) - cy,
                r as int,
            ) && i / (width as int) - cy < dy {
                color
            } else {
                old(buffer)@[i]
            });
        }
    }
}

/// Fills the rectangle whose top left pixel is `(x, y)` and which is
/// `rect_width` pixels wide and `rect_height` pixels high with `color`, as
/// far as it lies inside the buffer.
pub fn fill_rect(
    buffer: &mut [u32],
    width: usize,
    height: usize,
    x: usize,
    y: usize,
    rect_width: usize,
    rect_height: usize,
    color: u32,
)
    requires
        width * height <= old(buffer)@.len(),
    ensures
        final(buffer)@.len() == old(buffer)@.len(),
        forall|i: int|
            0 <= i < old(buffer)@.len() ==> #[trigger] final(buffer)@[i] == if i < width * height
                && x <= i % (width as int) < x + rect_width && y <= i / (width as int) < y
                + rect_height {
                color
            } else {
                old(buffer)@[i]
            },
{
    if x >= width || y >= height {
        proof {
            assert forall|i: int| 0 <= i < old(buffer)@.len() implies #[trigger] buffer@[i] == if i
                < width * height && x <= i % (width as int) < x + rect_width && y <= i / (
            width as int) < y + rect_height {
                color
            } else {
                old(buffer)@[i]
            } by {
                if i < width * height {
                    assert(width > 0) by (nonlinear_arith)
                        requires
                            0 <= i < width * height,
                            0 <= width,
                    ;
                    lemma_index_pixel(i, width as int, height as int);
                }
            }
        }
        return ;
    }
    let x_end: usize = if rect_width > width - x {
        width
    } else {
        x + rect_width
    };
    let y_end: usize = if rect_height > height - y {
        height
    } else {
        y + rect_height
    };
    let mut row: usize = y;
    while row < y_end
        invariant
            buffer.len() == buffer@.len(),
            buffer@.len() == old(buffer)@.len(),
            width * height <= buffer@.len(),
            x < width,
            y <= row <= y_end <= height,
            x <= x_end <= width,
            forall|i: int|
                0 <= i < buffer@.len() ==> #[trigger] buffer@[i] == if i < width * height && x <= i
                    % (width as int) < x_end && y <= i / (width as int) < row {
                    color
                } else {
                    old(buffer)@[i]
                },
        decreases y_end - row,
    {
        let ghost at_row = row;
        let mut column: usize = x;
        while column < x_end
            invariant
                buffer.len() == buffer@.len(),
                buffer@.len() == old(buffer)@.len(),
                width * height <= buffer@.len(),
                row == at_row,
                x < width,
                y <= row < y_end <= height,
                x <= column <= x_end <= width,
                forall|i: int|
                    0 <= i < buffer@.len() ==> #[trigger] buffer@[i] == if i < width * height && x
                        <= i % (width as int) < x_end && (y <= i / (width as int) < row || (i / (
                    width as int) == row && i % (width as int) < column)) {
                        color
                    } else {
                        old(buffer)@[i]
                    },
            decreases x_end - column,
        {
            let ghost before = buffer@;
            proof {
                lemma_pixel_index(column as int, row as int, width as int, height as int);
                assert(0 <= row * width) by (nonlinear_arith)
                    requires
                        0 <= row,
                        0 <= width,
                ;
            }
            let index: usize = row * width + column;
            buffer[index] = color;
            proof {
                assert forall|i: int| 0 <= i < buffer@.len() implies #[trigger] buffer@[i] == if i
                    < width * height && x <= i % (width as int) < x_end && (y <= i / (
                width as int) < row || (i / (width as int) == row && i % (width as int) < column
                    + 1)) {
                    color
                } else {
                    old(buffer)@[i]
                } by {
                    if i < width * height {
                        lemma_index_pixel(i, width as int, height as int);
                    }
                    assert(buffer@[i] == if i == row * width + column {
                        color
                    } else {
                        before[i]
                    });
                }
            }
            column += 1;
        }
        row += 1;
    }
    proof {
        assert forall|i: int| 0 <= i < old(buffer)@.len() implies #[trigger] buffer@[i] == if i
            < width * height && x <= i % (width as int) < x + rect_width && y <= i / (
        width as int) < y + rect_height {
            color
        } else {
            old(buffer)@[i]
        } by {
            if i < width * height {
                lemma_index_pixel(i, width as int, height as int);
            }
        }
    }
}

/// Width of one character cell in pixels.
pub const GLYPH_WIDTH: usize = 6;

/// Height of one line of wrapped text in pixels.
pub const LINE_HEIGHT: usize = 10;

/// The byte of a line feed.
pub const LINE_FEED: u8 = 10;

/// A line that starts at `start` is broken behind the byte at `i`: the
/// byte is a line feed, or the line is full with it.
pub open spec fn breaks_after(text: Seq<u8>, per_line: int, start: int, i: int) -> bool {
    i - start + 1 >= per_line || text[i] == LINE_FEED
}

/// The bytes from `start` up to `end` are one line of the wrapped text: the
/// line is not empty, it is broken nowhere before its last byte, and it
/// ends where it is broken or where the text ends.
pub open spec fn is_line(text: Seq<u8>, per_line: int, start: int, end: int) -> bool {
    &&& 0 <= start < end <= text.len()
    &&& forall|j: int| start <= j < end - 1 ==> !#[trigger] breaks_after(text, per_line, start, j)
    &&& (end == text.len() || breaks_after(text, per_line, start, end - 1))
}

/// `lines` are the lines of `text` wrapped at `per_line` bytes, as pairs of
/// the index where a line starts and the index behind its end: one line
/// follows the other, and together they cover the text.
pub open spec fn is_wrapping(text: Seq<u8>, per_line: int, lines: Seq<(usize, usize)>) -> bool {
    &&& forall|k: int|
        0 <= k < lines.len() ==> is_line(
            text,
            per_line,
            (#[trigger] lines[k]).0 as int,
            lines[k].1 as int,
        )
    &&& forall|k: int| 0 <= k < lines.len() - 1 ==> (#[trigger] lines[k]).1 == lines[k + 1].0
    &&& lines.len() > 0 ==> lines[0].0 == 0 && lines.last().1 == text.len()
    &&& lines.len() == 0 ==> text.len() == 0
}

/// Breaks `text` into the lines that fit into `max_width` pixels, each
/// character taking `GLYPH_WIDTH` of them. A line feed ends its line and
/// stays at the end of it. A line holds at least one byte, however narrow
/// the width.
pub fn wrap_lines(text: &[u8], max_width: usize) -> (lines: Vec<(usize, usize)>)
    ensures
        is_wrapping(text@, (max_width / GLYPH_WIDTH) as int, lines@),
{
    let chars_per_line: usize = max_width / GLYPH_WIDTH;
    let mut lines: Vec<(usize, usize)> = Vec::new();
    let mut line_start: usize = 0;
    let mut i: usize = 0;
    while i < text.len()
        invariant
            chars_per_line == max_width / GLYPH_WIDTH,
            line_start <= i <= text@.len(),
            forall|k: int|
                0 <= k < lines@.len() ==> is_line(
                    text@,
                    chars_per_line as int,
                    (#[trigger] lines@[k]).0 as int,
                    lines@[k].1 as int,
                ),
            forall|k: int|
                0 <= k < lines@.len() - 1 ==> (#[trigger] lines@[k]).1 == lines@[k + 1].0,
            lines@.len() > 0 ==> lines@[0].0 == 0 && lines@.last().1 == line_start,
            lines@.len() == 0 ==> line_start == 0,
            forall|j: int|
                line_start <= j < i ==> !#[trigger] breaks_after(
                    text@,
                    chars_per_line as int,
                    line_start as int,
                    j,
                ),
        decreases text@.len() - i,
    {
        if i - line_start + 1 >= chars_per_line || text[i] == LINE_FEED {
            let ghost before = lines@;
            lines.push((line_start, i + 1));
            proof {
                assert forall|k: int| 0 <= k < lines@.len() - 1 implies (#[trigger] lines@[k]).1
                    == lines@[k + 1].0 by {
                    if k < before.len() - 1 {
                        assert(lines@[k] == before[k]);
                        assert(lines@[k + 1] == before[k + 1]);
                    }
                }
            }
            line_start = i + 1;
        }
        i += 1;
    }
    if line_start < text.len() {
        let ghost before = lines@;
        lines.push((line_start, text.len()));
        proof {
            assert forall|k: int| 0 <= k < lines@.len() - 1 implies (#[trigger] lines@[k]).1
                == lines@[k + 1].0 by {
                if k < before.len() - 1 {
                    assert(lines@[k] == before[k]);
                    assert(lines@[k + 1] == before[k + 1]);
                }
            }
        }
    }
    lines
}

/// The lines of a text are determined: two wrappings of one text are the
/// same.
pub proof fn law_wrapping_is_unique(
    text: Seq<u8>,
    per_line: int,
    a: Seq<(usize, usize)>,
    b: Seq<(usize, usize)>,
    k: int,
)
    requires
        is_wrapping(text, per_line, a),
        is_wrapping(text, per_line, b),
        0 <= k < a.len(),
    ensures
        k < b.len(),
        a[k] == b[k],
    decreases k,
{
    if k > 0 {
        law_wrapping_is_unique(text, per_line, a, b, k - 1);
        assert(a[k - 1].1 == a[k - 1 + 1].0);
        assert(a[k - 1].1 < text.len());
        if b.len() == k {
            assert(b.last().1 == text.len());
        }
        assert(b[k - 1].1 == b[k - 1 + 1].0);
    }
    assert(k < b.len());
    let start = a[k].0 as int;
    assert(b[k].0 == start);
    let ea = a[k].1 as int;
    let eb = b[k].1 as int;
    if ea < eb {
        assert(breaks_after(text, per_line, start, ea - 1));
    } else if eb < ea {
        assert(breaks_after(text, per_line, start, eb - 1));
    }
}

/// Left edge and top edge of the information window of a body.
pub const INFO_ORIGIN: usize = 50;

/// Width of the information window.
pub const INFO_WIDTH: usize = 300;

/// Side of the square in which the window shows the texture of a body.
pub const INFO_TEXTURE_SIZE: usize = 120;

/// Number of lines that a description of `length` bytes takes in the
/// information window, where it is wrapped at the width of the window less
/// a margin of 10 pixels on either side: the length divided by the bytes of
/// a line, rounded up.
pub open spec fn spec_description_lines(length: int) -> int {
    let per_line = ((INFO_WIDTH - 20) / GLYPH_WIDTH as int) as int;
    (length + per_line - 1) / per_line
}

/// Number of lines that a description of `length` bytes takes in the
/// information window.
pub fn description_lines(length: usize) -> (r: usize)
    ensures
        r == spec_description_lines(length as int),
        r <= length,
{
    let per_line: usize = (INFO_WIDTH - 20) / GLYPH_WIDTH;
    assert(per_line == 46);
    if length % per_line == 0 {
        length / per_line
    } else {
        length / per_line + 1
    }
}

/// Height of the information window of a body: 150 pixels, 135 more where
/// the body has a texture, and where it has a description the height of
/// its lines and 15 more.
pub open spec fn spec_info_height(has_texture: bool, description_length: int) -> int {
    150 + (if has_texture {
        INFO_TEXTURE_SIZE as int + 15
    } else {
        0
    }) + (if description_length > 0 {
        spec_description_lines(description_length) * LINE_HEIGHT as int + 15
    } else {
        0
    })
}

/// Height of the information window of a body.
pub fn info_height(has_texture: bool, description_length: usize) -> (r: usize)
    requires
        description_length <= usize::MAX / 16,
    ensures
        r == spec_info_height(has_texture, description_length as int),
{
    let mut height: usize = 150;
    if has_texture {
        height += INFO_TEXTURE_SIZE + 15;
    }
    if description_length > 0 {
        height += description_lines(description_length) * LINE_HEIGHT + 15;
    }
    height
}

/// The colour at half its brightness: each of the three channels of a
/// colour packed as `0xRRGGBB`, halved.
pub open spec fn spec_dim_color(color: u32) -> u32 {
    (((color >> 16) / 2) << 16) | ((((color >> 8) & 0xFF) / 2) << 8) | ((color & 0xFF) / 2)
}

/// Each channel of the dimmed colour is half the channel of the colour.
pub proof fn law_dim_color_halves_channels(color: u32)
    requires
        color <= 0xFFFFFF,
    ensures
        (spec_dim_color(color) >> 16) & 0xFF == ((color >> 16) & 0xFF) / 2,
        (spec_dim_color(color) >> 8) & 0xFF == ((color >> 8) & 0xFF) / 2,
        spec_dim_color(color) & 0xFF == (color & 0xFF) / 2,
        spec_dim_color(color) <= 0xFFFFFF,
{
    let dim = spec_dim_color(color);
    assert((dim >> 16) & 0xFF == ((color >> 16) & 0xFF) / 2 && (dim >> 8) & 0xFF == ((color >> 8)
        & 0xFF) / 2 && dim & 0xFF == (color & 0xFF) / 2 && dim <= 0xFFFFFF) by (bit_vector)
        requires
            color <= 0xFFFFFF,
            dim == (((color >> 16) / 2) << 16) | ((((color >> 8) & 0xFF) / 2) << 8) | ((color
                & 0xFF) / 2),
    ;
}

/// The colour at half its brightness.
pub fn dim_color(color: u32) -> (r: u32)
    ensures
        r == spec_dim_color(color),
{
    (((color >> 16) / 2) << 16) | ((((color >> 8) & 0xFF) / 2) << 8) | ((color & 0xFF) / 2)
}

/// A line segment between two pixels, as the line walk sees it.
pub struct Segment {
    pub x0: int,
    pub y0: int,
    pub x1: int,
    pub y1: int,
}

/// The pen of the line walk: where it is, and the error that it carries.
pub struct Pen {
    pub x: int,
    pub y: int,
    pub err: int,
}

impl Segment {
    /// Distance between the ends along the columns.
    pub open spec fn dx(self) -> int {
        if self.x1 >= self.x0 {
            self.x1 - self.x0
        } else {
            self.x0 - self.x1
        }
    }

    /// Distance between the ends along the rows.
    pub open spec fn dy(self) -> int {
        if self.y1 >= self.y0 {
            self.y1 - self.y0
        } else {
            self.y0 - self.y1
        }
    }

    /// Direction of a step along the columns.
    pub open spec fn sx(self) -> int {
        if self.x0 < self.x1 {
            1
        } else {
            -1
        }
    }

    /// Direction of a step along the rows.
    pub open spec fn sy(self) -> int {
        if self.y0 < self.y1 {
            1
        } else {
            -1
        }
    }

    /// One move of the pen: a step along the columns when twice the error
    /// exceeds `-dy`, and a step along the rows when twice the error, as it
    /// was before the move, is below `dx`.
    pub open spec fn step(self, pen: Pen) -> Pen {
        let e2 = 2 * pen.err;
        let across = e2 > -self.dy();
        let down = e2 < self.dx();
        Pen {
            x: if across {
                pen.x + self.sx()
            } else {
                pen.x
            },
            y: if down {
                pen.y + self.sy()
            } else {
                pen.y
            },
            err: pen.err - (if across {
                self.dy()
            } else {
                0
            }) + (if down {
                self.dx()
            } else {
                0
            }),
        }
    }

    /// The pen after `k` moves from the first end.
    pub open spec fn pen(self, k: nat) -> Pen
        decreases k,
    {
        if k == 0 {
            Pen { x: self.x0, y: self.y0, err: self.dx() - self.dy() }
        } else {
            self.step(self.pen((k - 1) as nat))
        }
    }

    /// The pen stands on the second end after `k` moves.
    pub open spec fn arrives(self, k: nat) -> bool {
        self.pen(k).x == self.x1 && self.pen(k).y == self.y1
    }

    /// The pen stands on the pixel `(x, y)` at one of its first `count`
    /// places.
    pub open spec fn visits(self, count: nat, x: int, y: int) -> bool {
        exists|k: nat| k < count && (#[trigger] self.pen(k)).x == x && self.pen(k).y == y
    }

    /// The walk ends after `n` moves: there the pen stands on the second
    /// end for the first time.
    pub open spec fn ends_after(self, n: nat) -> bool {
        self.arrives(n) && forall|k: nat| k < n ==> !#[trigger] self.arrives(k)
    }

    /// Steps made along the columns and along the rows when the pen is at
    /// `(x, y)`.
    pub open spec fn progress(self, pen: Pen, a: int, b: int) -> bool {
        &&& 0 <= a <= self.dx()
        &&& 0 <= b <= self.dy()
        &&& pen.x == self.x0 + self.sx() * a
        &&& pen.y == self.y0 + self.sy() * b
        &&& pen.err == self.dx() - self.dy() - a * self.dy() + b * self.dx()
    }
}

/// A pen that has not arrived moves towards the second end and never
/// beyond it: each move makes a step along the columns, along the rows, or
/// both, and the steps made stay within `dx` and `dy`.
pub proof fn lemma_step_progress(line: Segment, pen: Pen, a: int, b: int) -> (next: (int, int))
    requires
        line.progress(pen, a, b),
        !(pen.x == line.x1 && pen.y == line.y1),
    ensures
        line.progress(line.step(pen), next.0, next.1),
        a <= next.0 <= a + 1,
        b <= next.1 <= b + 1,
        next.0 + next.1 > a + b,
{
    let dx = line.dx();
    let dy = line.dy();
    let e2 = 2 * pen.err;
    let across = e2 > -dy;
    let down = e2 < dx;
    assert(pen.x == line.x1 <==> a == dx) by (nonlinear_arith)
        requires
            pen.x == line.x0 + line.sx() * a,
            0 <= a <= dx,
            dx == line.dx(),
            line.sx() == 1 || line.sx() == -1,
            line.sx() == 1 ==> line.x1 == line.x0 + dx,
            line.sx() == -1 ==> line.x1 == line.x0 - dx,
    ;
    assert(pen.y == line.y1 <==> b == dy) by (nonlinear_arith)
        requires
            pen.y == line.y0 + line.sy() * b,
            0 <= b <= dy,
            dy == line.dy(),
            line.sy() == 1 || line.sy() == -1,
            line.sy() == 1 ==> line.y1 == line.y0 + dy,
            line.sy() == -1 ==> line.y1 == line.y0 - dy,
    ;
    if a == dx {
        // the columns are done, so the rows are not: no step along the columns
        assert(pen.err <= -dy) by (nonlinear_arith)
            requires
                pen.err == dx - dy - a * dy + b * dx,
                a == dx,
                0 <= b < dy,
                0 <= dx,
        ;
    }
    if b == dy {
        assert(pen.err >= dx) by (nonlinear_arith)
            requires
                pen.err == dx - dy - a * dy + b * dx,
                b == dy,
                0 <= a < dx,
                0 <= dy,
        ;
    }
    let a2 = if across {
        a + 1
    } else {
        a
    };
    let b2 = if down {
        b + 1
    } else {
        b
    };
    assert(line.step(pen).err == dx - dy - a2 * dy + b2 * dx) by (nonlinear_arith)
        requires
            pen.err == dx - dy - a * dy + b * dx,
            line.step(pen).err == pen.err - (if across {
                dy
            } else {
                0
            }) + (if down {
                dx
            } else {
                0
            }),
            a2 == if across {
                a + 1
            } else {
                a
            },
            b2 == if down {
                b + 1
            } else {
                b
            },
    ;
    assert(line.step(pen).x == line.x0 + line.sx() * a2) by (nonlinear_arith)
        requires
            pen.x == line.x0 + line.sx() * a,
            line.step(pen).x == if across {
                pen.x + line.sx()
            } else {
                pen.x
            },
            a2 == if across {
                a + 1
            } else {
                a
            },
    ;
    assert(line.step(pen).y == line.y0 + line.sy() * b2) by (nonlinear_arith)
        requires
            pen.y == line.y0 + line.sy() * b,
            line.step(pen).y == if down {
                pen.y + line.sy()
            } else {
                pen.y
            },
            b2 == if down {
                b + 1
            } else {
                b
            },
    ;
    (a2, b2)
}

/// The first `count + 1` places of the pen are its first `count` places
/// and the place after `count` moves.
pub proof fn lemma_visits_next(line: Segment, count: nat, x: int, y: int)
    ensures
        line.visits(count + 1, x, y) <==> line.visits(count, x, y) || (line.pen(count).x == x
            && line.pen(count).y == y),
{
    if line.visits(count + 1, x, y) {
        let k = choose|k: nat|
            k < count + 1 && (#[trigger] line.pen(k)).x == x && line.pen(k).y == y;
        if k < count {
            assert(line.visits(count, x, y));
        }
    }
    if line.visits(count, x, y) {
        let k = choose|k: nat| k < count && (#[trigger] line.pen(k)).x == x && line.pen(k).y == y;
        assert(k < count + 1);
    }
    if line.pen(count).x == x && line.pen(count).y == y {
        assert(count < count + 1);
    }
}

/// The walk ends after one number of moves only.
pub proof fn lemma_walk_ends_once(line: Segment, n: nat, m: nat)
    requires
        line.ends_after(n),
        line.ends_after(m),
    ensures
        n == m,
{
    if n < m {
        assert(line.arrives(n));
    } else if m < n {
        assert(line.arrives(m));
    }
}

/// The number of moves after which the walk ends.
pub open spec fn walk_length(line: Segment) -> nat {
    choose|n: nat| line.ends_after(n)
}

/// The buffer with a line drawn into it: the pixels that the pen visits on
/// its walk, from the first end to the second, have the colour as far as
/// they lie inside the buffer; every other pixel is as it was.
pub open spec fn with_line(
    before: Seq<u32>,
    width: int,
    height: int,
    line: Segment,
    color: u32,
) -> Seq<u32> {
    Seq::new(
        before.len(),
        |i: int|
            if i < width * height && line.visits(walk_length(line) + 1, i % width, i / width) {
                color
            } else {
                before[i]
            },
    )
}

/// The segment from `(x0, y0)` to `(x1, y1)`.
pub open spec fn segment(x0: i32, y0: i32, x1: i32, y1: i32) -> Segment {
    Segment { x0: x0 as int, y0: y0 as int, x1: x1 as int, y1: y1 as int }
}

/// Draws the line from `(x0, y0)` to `(x1, y1)` in `color`, both ends
/// included, as far as it lies inside the buffer. The pixels are those of
/// the walk that `Segment::pen` describes, up to the move on which the pen
/// arrives at `(x1, y1)`; the walk does arrive there.
pub fn draw_line(
    buffer: &mut [u32],
    width: usize,
    height: usize,
    x0: i32,
    y0: i32,
    x1: i32,
    y1: i32,
    color: u32,
)
    requires
        width <= MAX_SIDE,
        height <= MAX_SIDE,
        width * height <= old(buffer)@.len(),
    ensures
        segment(x0, y0, x1, y1).ends_after(walk_length(segment(x0, y0, x1, y1))),
        final(buffer)@ == with_line(
            old(buffer)@,
            width as int,
            height as int,
            segment(x0, y0, x1, y1),
            color,
        ),
{
    let ghost line = segment(x0, y0, x1, y1);
    let dx: i64 = if x1 >= x0 {
        x1 as i64 - x0 as i64
    } else {
        x0 as i64 - x1 as i64
    };
    let dy: i64 = if y1 >= y0 {
        y1 as i64 - y0 as i64
    } else {
        y0 as i64 - y1 as i64
    };
    let sx: i64 = if x0 < x1 {
        1
    } else {
        -1
    };
    let sy: i64 = if y0 < y1 {
        1
    } else {
        -1
    };
    let mut err: i64 = dx - dy;
    let mut x: i64 = x0 as i64;
    let mut y: i64 = y0 as i64;
    let mut done: bool = false;
    let ghost mut n: nat = 0;
    let ghost mut a: int = 0;
    let ghost mut b: int = 0;
    while !done
        invariant
            buffer.len() == buffer@.len(),
            buffer@.len() == old(buffer)@.len(),
            width <= MAX_SIDE,
            height <= MAX_SIDE,
            width * height <= buffer@.len(),
            line == segment(x0, y0, x1, y1),
            dx == line.dx(),
            dy == line.dy(),
            sx == line.sx(),
            sy == line.sy(),
            line.pen(n) == (Pen { x: x as int, y: y as int, err: err as int }),
            line.progress(line.pen(n), a, b),
            -2 * dy <= err <= 2 * dx,
            forall|k: nat| k < n ==> !#[trigger] line.arrives(k),
            done ==> line.arrives(n),
            forall|i: int|
                0 <= i < buffer@.len() ==> #[trigger] buffer@[i] == if i < width * height
                    && line.visits(
                    if done {
                        n + 1
                    } else {
                        n
                    },
                    i % (width as int),
                    i / (width as int),
                ) {
                    color
                } else {
                    old(buffer)@[i]
                },
        decreases
                (line.dx() - a) + (line.dy() - b) + (if done {
                    0int
                } else {
                    1int
                }),
    {
        let ghost before = buffer@;
        let inside: bool = x >= 0 && x < width as i64 && y >= 0 && y < height as i64;
        if inside {
            proof {
                lemma_pixel_index(x as int, y as int, width as int, height as int);
                assert(0 <= y * width) by (nonlinear_arith)
                    requires
                        0 <= y,
                        0 <= width,
                ;
            }
            let index: usize = y as usize * width + x as usize;
            buffer[index] = color;
        }
        proof {
            assert forall|i: int| 0 <= i < buffer@.len() implies #[trigger] buffer@[i] == if i
                < width * height && line.visits(n + 1, i % (width as int), i / (width as int)) {
                color
            } else {
                old(buffer)@[i]
            } by {
                lemma_visits_next(line, n, i % (width as int), i / (width as int));
                if i < width * height {
                    assert(width > 0) by (nonlinear_arith)
                        requires
                            0 <= i < width * height,
                            0 <= width,
                    ;
                    lemma_index_pixel(i, width as int, height as int);
                    if inside {
                        lemma_pixel_index(x as int, y as int, width as int, height as int);
                    }
                }
                assert(buffer@[i] == if inside && i == y * width + x {
                    color
                } else {
                    before[i]
                });
            }
        }
        if x == x1 as i64 && y == y1 as i64 {
            done = true;
        } else {
            proof {
                let next = lemma_step_progress(line, line.pen(n), a, b);
                a = next.0;
                b = next.1;
                assert(line.pen(n + 1) == line.step(line.pen(n)));
            }
            let e2: i64 = 2 * err;
            if e2 > -dy {
                err -= dy;
                x += sx;
            }
            if e2 < dx {
                err += dx;
                y += sy;
            }
            proof {
                n = n + 1;
            }
        }
    }
    proof {
        assert(line.ends_after(n));
        lemma_walk_ends_once(line, n, walk_length(line));
        assert(buffer@ =~= with_line(old(buffer)@, width as int, height as int, line, color));
    }
}

} // verus!

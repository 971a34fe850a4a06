//! The information window of a body, and the wrapped text in it.

use vstd::prelude::*;
use vstd::string::StringSliceAdditionalSpecFns;
use vstd::utf8::encode_utf8;
use crate::font::{draw_bytes, draw_text, lemma_painted_outside, text_strokes, with_text};
use crate::planet::Planet;
use crate::render::{
    description_lines, fill_rect, info_height, is_wrapping, law_wrapping_is_unique,
    spec_description_lines, spec_info_height, wrap_lines, GLYPH_WIDTH, INFO_ORIGIN,
    INFO_TEXTURE_SIZE, INFO_WIDTH, LINE_HEIGHT, MAX_SIDE,
};
use crate::scalar::{answers, is_arithmetic, Arithmetic, Op};
use crate::scene::with_sprite;
use crate::sprite_renderer::draw_circular_sprite;

verus! {

/// The colour of the background of the window.
pub const INFO_BACKGROUND: u32 = 0x222222;

/// The colour of the border of the window and of the name of the body.
pub const INFO_WHITE: u32 = 0xFFFFFF;

/// The colour of the button that closes the window.
pub const INFO_CLOSE: u32 = 0xFF0000;

/// The colour of the dividers.
pub const INFO_DIVIDER: u32 = 0x888888;

/// The colour of the description.
pub const INFO_DESCRIPTION: u32 = 0xAADDFF;

/// The colour of the numbers.
pub const INFO_NUMBERS: u32 = 0xCCCCCC;

/// The lines of `text` wrapped at `per_line` bytes.
pub open spec fn spec_lines(text: Seq<u8>, per_line: int) -> Seq<(usize, usize)> {
    choose|lines: Seq<(usize, usize)>| is_wrapping(text, per_line, lines)
}

/// A wrapping of a text is the wrapping of the text.
pub proof fn lemma_lines_found(text: Seq<u8>, per_line: int, lines: Seq<(usize, usize)>)
    requires
        is_wrapping(text, per_line, lines),
    ensures
        lines == spec_lines(text, per_line),
{
    let other = spec_lines(text, per_line);
    if lines.len() < other.len() {
        law_wrapping_is_unique(text, per_line, other, lines, lines.len() as int);
    }
    if other.len() < lines.len() {
        law_wrapping_is_unique(text, per_line, lines, other, other.len() as int);
    }
    assert forall|k: int| 0 <= k < lines.len() implies lines[k] == other[k] by {
        law_wrapping_is_unique(text, per_line, lines, other, k);
    }
    assert(lines =~= other);
}

/// The buffer with the first `count` lines of a wrapped text drawn into it,
/// each `LINE_HEIGHT` pixels below the one before it.
pub open spec fn with_lines(
    before: Seq<u32>,
    width: int,
    height: int,
    text: Seq<u8>,
    lines: Seq<(usize, usize)>,
    x: int,
    y: int,
    color: u32,
    count: nat,
) -> Seq<u32>
    decreases count,
{
    if count == 0 {
        before
    } else {
        with_text(
            with_lines(before, width, height, text, lines, x, y, color, (count - 1) as nat),
            width,
            height,
            text,
            lines[count - 1].0 as int,
            lines[count - 1].1 as int,
            x,
            y + (count - 1) * 10,
            color,
        )
    }
}

/// The buffer with `text` drawn into it, wrapped into `max_width` pixels.
pub open spec fn with_wrapped_text(
    before: Seq<u32>,
    width: int,
    height: int,
    text: Seq<u8>,
    x: int,
    y: int,
    max_width: int,
    color: u32,
) -> Seq<u32> {
    let lines = spec_lines(text, max_width / 6);
    with_lines(before, width, height, text, lines, x, y, color, lines.len())
}

/// Draws `text` with its top left corner at `(x, y)`, wrapped into
/// `max_width` pixels, as far as it lies inside the buffer.
pub fn draw_wrapped_text(
    buffer: &mut [u32],
    width: usize,
    height: usize,
    text: &str,
    x: usize,
    y: usize,
    max_width: usize,
    color: u32,
)
    requires
        width <= MAX_SIDE,
        height <= MAX_SIDE,
        width * height <= old(buffer)@.len(),
    ensures
        final(buffer)@.len() == old(buffer)@.len(),
        final(buffer)@ == with_wrapped_text(
            old(buffer)@,
            width as int,
            height as int,
            text.spec_bytes(),
            x as int,
            y as int,
            max_width as int,
            color,
        ),
{
    let bytes = text.as_bytes();
    let lines = wrap_lines(bytes, max_width);
    proof {
        lemma_lines_found(bytes@, (max_width / GLYPH_WIDTH) as int, lines@);
    }
    let mut current_line: usize = 0;
    while current_line < lines.len()
        invariant
            width <= MAX_SIDE,
            height <= MAX_SIDE,
            width * height <= buffer@.len(),
            buffer@.len() == old(buffer)@.len(),
            is_wrapping(bytes@, (max_width / GLYPH_WIDTH) as int, lines@),
            current_line <= lines@.len(),
            buffer@ == with_lines(
                old(buffer)@,
                width as int,
                height as int,
                bytes@,
                lines@,
                x as int,
                y as int,
                color,
                current_line as nat,
            ),
        decreases lines@.len() - current_line,
    {
        let (start, end) = lines[current_line];
        assert(crate::render::is_line(
            bytes@,
            (max_width / GLYPH_WIDTH) as int,
            lines@[current_line as int].0 as int,
            lines@[current_line as int].1 as int,
        ));
        if current_line <= (usize::MAX - y) / LINE_HEIGHT {
            draw_bytes(
                buffer,
                width,
                height,
                bytes,
                start,
                end,
                x,
                y + current_line * LINE_HEIGHT,
                color,
            );
        } else {
            proof {
                // The line lies below every row that a buffer can have.
                lemma_painted_outside(
                    buffer@,
                    width as int,
                    height as int,
                    text_strokes(bytes@, start as int, x as int, y + current_line * 10, color),
                    (35 * (end - start)) as nat,
                );
            }
        }
        current_line += 1;
    }
}

/// The buffer with a rectangle filled in `color`.
pub open spec fn with_rect(
    before: Seq<u32>,
    width: int,
    height: int,
    x: int,
    y: int,
    rect_width: int,
    rect_height: int,
    color: u32,
) -> Seq<u32> {
    Seq::new(
        before.len(),
        |i: int|
            if i < width * height && x <= i % width < x + rect_width && y <= i / width < y
                + rect_height {
                color
            } else {
                before[i]
            },
    )
}

/// The buffer with a divider of the window drawn into it in row `y`.
pub open spec fn with_divider(before: Seq<u32>, width: int, height: int, y: int) -> Seq<u32> {
    with_rect(before, width, height, 60, y, 280, 1, INFO_DIVIDER)
}

/// The buffer with the frame of the window drawn into it: the background,
/// the border, the close button, the name of the body and the divider
/// below it.
pub open spec fn with_info_frame(
    before: Seq<u32>,
    width: int,
    height: int,
    window_height: int,
    name: Seq<u8>,
) -> Seq<u32> {
    let background = with_rect(before, width, height, 50, 50, 300, window_height, INFO_BACKGROUND);
    let top = with_rect(background, width, height, 50, 50, 300, 1, INFO_WHITE);
    let bottom = with_rect(top, width, height, 50, 50 + window_height - 1, 300, 1, INFO_WHITE);
    let left = with_rect(bottom, width, height, 50, 50, 1, window_height, INFO_WHITE);
    let right = with_rect(left, width, height, 349, 50, 1, window_height, INFO_WHITE);
    let close = with_text(right, width, height, "X".spec_bytes(), 0, 1, 330, 55, INFO_CLOSE);
    let named = with_text(close, width, height, name, 0, name.len() as int, 60, 70, INFO_WHITE);
    with_divider(named, width, height, 90)
}

/// The buffer with the four lines of numbers drawn into it, the first in
/// row `y`, each 15 pixels below the one before it.
pub open spec fn with_numbers(
    before: Seq<u32>,
    width: int,
    height: int,
    y: int,
    numbers: Seq<Seq<u8>>,
    count: nat,
) -> Seq<u32>
    decreases count,
{
    if count == 0 {
        before
    } else {
        with_text(
            with_numbers(before, width, height, y, numbers, (count - 1) as nat),
            width,
            height,
            numbers[count - 1],
            0,
            numbers[count - 1].len() as int,
            60,
            y + 15 * (count - 1),
            INFO_NUMBERS,
        )
    }
}

/// The buffer with the information window of a body drawn into it: the
/// frame; the texture of the body where it has one, and a divider; its
/// description where it has one, wrapped, and a divider; and the four lines
/// of numbers that the host has written: mass, radius, position, velocity.
pub open spec fn with_info(
    before: Seq<u32>,
    width: int,
    height: int,
    reals: Arithmetic,
    planet: Planet,
    numbers: Seq<Seq<u8>>,
) -> Seq<u32> {
    let description = encode_utf8(planet.description@);
    let window_height = spec_info_height(planet.texture is Some, description.len() as int);
    let frame = with_info_frame(before, width, height, window_height, encode_utf8(planet.name@));
    let textured = match planet.texture {
        Some(texture) => with_divider(
            with_sprite(frame, width, height, 200, 165, 60, texture, reals),
            width,
            height,
            240,
        ),
        None => frame,
    };
    let y = if planet.texture is Some {
        255
    } else {
        105
    };
    let described = if description.len() > 0 {
        with_divider(
            with_wrapped_text(textured, width, height, description, 60, y, 280, INFO_DESCRIPTION),
            width,
            height,
            y + spec_description_lines(description.len() as int) * 10 + 15,
        )
    } else {
        textured
    };
    let below = if description.len() > 0 {
        y + spec_description_lines(description.len() as int) * 10 + 25
    } else {
        y
    };
    with_numbers(described, width, height, below, numbers, 4)
}

/// Fills a rectangle.
fn rect(
    buffer: &mut [u32],
    width: usize,
    height: usize,
    x: usize,
    y: usize,
    rect_width: usize,
    rect_height: usize,
    color: u32,
)
    requires
        width * height <= old(buffer)@.len(),
    ensures
        final(buffer)@.len() == old(buffer)@.len(),
        final(buffer)@ == with_rect(
            old(buffer)@,
            width as int,
            height as int,
            x as int,
            y as int,
            rect_width as int,
            rect_height as int,
            color,
        ),
{
    fill_rect(buffer, width, height, x, y, rect_width, rect_height, color);
    assert(buffer@ =~= with_rect(
        old(buffer)@,
        width as int,
        height as int,
        x as int,
        y as int,
        rect_width as int,
        rect_height as int,
        color,
    ));
}

/// Draws the information window of a body. The four lines of numbers are
/// written by the host: the mass, the radius, the position and the velocity
/// of the body.
pub fn draw_planet_info<R: Fn(Op, u64, u64) -> u64>(
    buffer: &mut [u32],
    width: usize,
    height: usize,
    planet: &Planet,
    mass: &str,
    radius: &str,
    position: &str,
    velocity: &str,
    reals: &R,
)
    requires
        is_arithmetic(*reals),
        width <= MAX_SIDE,
        height <= MAX_SIDE,
        width * height <= old(buffer)@.len(),
        planet.texture matches Some(texture) ==> texture.wf(),
        encode_utf8(planet.description@).len() <= usize::MAX / 16,
    ensures
        final(buffer)@ == with_info(
            old(buffer)@,
            width as int,
            height as int,
            answers(*reals),
            *planet,
            seq![
                mass.spec_bytes(),
                radius.spec_bytes(),
                position.spec_bytes(),
                velocity.spec_bytes(),
            ],
        ),
{
    let info_x: usize = INFO_ORIGIN;
    let info_y: usize = INFO_ORIGIN;
    let description = planet.description.as_str();
    let has_description: bool = description.len() > 0;
    let window_height: usize = info_height(planet.texture.is_some(), description.len());
    let ghost numbers = seq![
        mass.spec_bytes(),
        radius.spec_bytes(),
        position.spec_bytes(),
        velocity.spec_bytes(),
    ];

    // Background, then the border on all four sides.
    rect(buffer, width, height, info_x, info_y, INFO_WIDTH, window_height, INFO_BACKGROUND);
    rect(buffer, width, height, info_x, info_y, INFO_WIDTH, 1, INFO_WHITE);
    rect(buffer, width, height, info_x, info_y + window_height - 1, INFO_WIDTH, 1, INFO_WHITE);
    rect(buffer, width, height, info_x, info_y, 1, window_height, INFO_WHITE);
    rect(buffer, width, height, info_x + INFO_WIDTH - 1, info_y, 1, window_height, INFO_WHITE);

    // Close button and name.
    proof {
        reveal_strlit("X");
        assert("X".spec_bytes().len() == 1) by {
            vstd::string::is_ascii_spec_bytes("X");
        }
    }
    draw_text(buffer, width, height, "X", info_x + INFO_WIDTH - 20, info_y + 5, INFO_CLOSE);
    let mut y_offset: usize = info_y + 20;
    draw_text(buffer, width, height, planet.name.as_str(), info_x + 10, y_offset, INFO_WHITE);
    y_offset += 20;
    rect(buffer, width, height, info_x + 10, y_offset, INFO_WIDTH - 20, 1, INFO_DIVIDER);
    y_offset += 15;
    assert(buffer@ == with_info_frame(
        old(buffer)@,
        width as int,
        height as int,
        window_height as int,
        encode_utf8(planet.name@),
    ));

    match &planet.texture {
        Some(texture) => {
            let ghost framed = buffer@;
            draw_circular_sprite(
                buffer,
                width,
                height,
                (info_x + INFO_WIDTH / 2) as i32,
                (y_offset + INFO_TEXTURE_SIZE / 2) as i32,
                INFO_TEXTURE_SIZE as i32 / 2,
                texture,
                reals,
            );
            assert(buffer@ =~= with_sprite(
                framed,
                width as int,
                height as int,
                200,
                165,
                60,
                *texture,
                answers(*reals),
            ));
            y_offset += INFO_TEXTURE_SIZE + 15;
            rect(buffer, width, height, info_x + 10, y_offset, INFO_WIDTH - 20, 1, INFO_DIVIDER);
            y_offset += 15;
        },
        None => {},
    }

    if has_description {
        draw_wrapped_text(
            buffer,
            width,
            height,
            description,
            info_x + 10,
            y_offset,
            INFO_WIDTH - 20,
            INFO_DESCRIPTION,
        );
        y_offset += description_lines(description.len()) * LINE_HEIGHT + 15;
        rect(buffer, width, height, info_x + 10, y_offset, INFO_WIDTH - 20, 1, INFO_DIVIDER);
        y_offset += 10;
    }

    let ghost described = buffer@;
    let ghost below = y_offset as int;
    draw_text(buffer, width, height, mass, info_x + 10, y_offset, INFO_NUMBERS);
    y_offset += 15;
    draw_text(buffer, width, height, radius, info_x + 10, y_offset, INFO_NUMBERS);
    y_offset += 15;
    draw_text(buffer, width, height, position, info_x + 10, y_offset, INFO_NUMBERS);
    y_offset += 15;
    draw_text(buffer, width, height, velocity, info_x + 10, y_offset, INFO_NUMBERS);
    proof {
        reveal_with_fuel(with_numbers, 5);
        assert(buffer@ == with_numbers(
            described,
            width as int,
            height as int,
            below,
            numbers,
            4,
        ));
    }
}

} // verus!

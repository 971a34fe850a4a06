//! Drawing of textured discs.

use vstd::prelude::*;
use crate::render::{in_disc, lemma_index_pixel, lemma_pixel_index, walked, MAX_SIDE};
use crate::scalar::{
    answers, from_integer, is_arithmetic, product, quotient, spec_from_integer, spec_product,
    spec_quotient, spec_sum, sum, Arithmetic, Op, HALF, TWO,
};
use crate::texture::Texture;

verus! {

/// One byte of a packed pixel: the bits from `shift` up.
pub open spec fn spec_channel(pixel: u32, shift: u32) -> u32 {
    (pixel >> shift) & 0xFF
}

/// One byte of a packed pixel.
pub fn channel(pixel: u32, shift: u32) -> (r: u32)
    requires
        shift < 32,
    ensures
        r == spec_channel(pixel, shift),
        r <= 255,
{
    assert((pixel >> shift) & 0xFF <= 255) by (bit_vector);
    (pixel >> shift) & 0xFF
}

/// The weighted mean of a channel of the source and of the destination,
/// the weights being `alpha` and `255 - alpha`.
pub open spec fn spec_mix(src: u32, dst: u32, alpha: u32) -> u32 {
    ((src * alpha + dst * (255 - alpha)) / 255) as u32
}

/// The weighted mean of a channel of the source and of the destination.
pub fn mix(src: u32, dst: u32, alpha: u32) -> (r: u32)
    requires
        src <= 255,
        dst <= 255,
        alpha <= 255,
    ensures
        r == spec_mix(src, dst, alpha),
        r <= 255,
{
    assert(src * alpha + dst * (255 - alpha) <= 255 * 255) by (nonlinear_arith)
        requires
            0 <= src <= 255,
            0 <= dst <= 255,
            0 <= alpha <= 255,
    ;
    assert(src * alpha <= 255 * 255 && dst * (255 - alpha) <= 255 * 255) by (nonlinear_arith)
        requires
            0 <= src <= 255,
            0 <= dst <= 255,
            0 <= alpha <= 255,
    ;
    (src * alpha + dst * (255 - alpha)) / 255
}

/// The pixel that `src`, a pixel with an alpha channel, leaves on top of
/// `dst`: `dst` itself where `src` is transparent, the colour of `src`
/// where it is opaque, and between the two the mean of each colour channel
/// weighted by the alpha of `src`.
pub open spec fn spec_blend(dst: u32, src: u32) -> u32 {
    let alpha = spec_channel(src, 24);
    if alpha == 0 {
        dst
    } else if alpha == 255 {
        src & 0xFFFFFF
    } else {
        (spec_mix(spec_channel(src, 16), spec_channel(dst, 16), alpha) << 16) | (spec_mix(
            spec_channel(src, 8),
            spec_channel(dst, 8),
            alpha,
        ) << 8) | spec_mix(spec_channel(src, 0), spec_channel(dst, 0), alpha)
    }
}

/// Where `src` is neither transparent nor opaque, each colour channel of
/// the blended pixel is the weighted mean of that channel in `src` and in
/// `dst`, and the blended pixel has no alpha.
pub proof fn law_blend_mixes_channels(dst: u32, src: u32)
    requires
        0 < spec_channel(src, 24) < 255,
    ensures
        spec_channel(spec_blend(dst, src), 16) == spec_mix(
            spec_channel(src, 16),
            spec_channel(dst, 16),
            spec_channel(src, 24),
        ),
        spec_channel(spec_blend(dst, src), 8) == spec_mix(
            spec_channel(src, 8),
            spec_channel(dst, 8),
            spec_channel(src, 24),
        ),
        spec_channel(spec_blend(dst, src), 0) == spec_mix(
            spec_channel(src, 0),
            spec_channel(dst, 0),
            spec_channel(src, 24),
        ),
        spec_channel(spec_blend(dst, src), 24) == 0,
{
    let alpha = spec_channel(src, 24);
    assert(alpha <= 255 && spec_channel(src, 16) <= 255 && spec_channel(dst, 16) <= 255
        && spec_channel(src, 8) <= 255 && spec_channel(dst, 8) <= 255 && spec_channel(src, 0)
        <= 255 && spec_channel(dst, 0) <= 255) by {
        assert(forall|pixel: u32, shift: u32| (#[trigger] (pixel >> shift)) & 0xFF <= 255)
            by (bit_vector);
    }
    let red = spec_mix(spec_channel(src, 16), spec_channel(dst, 16), alpha);
    let green = spec_mix(spec_channel(src, 8), spec_channel(dst, 8), alpha);
    let blue = spec_mix(spec_channel(src, 0), spec_channel(dst, 0), alpha);
    lemma_mix_is_a_channel(spec_channel(src, 16), spec_channel(dst, 16), alpha);
    lemma_mix_is_a_channel(spec_channel(src, 8), spec_channel(dst, 8), alpha);
    lemma_mix_is_a_channel(spec_channel(src, 0), spec_channel(dst, 0), alpha);
    let packed = (red << 16) | (green << 8) | blue;
    assert((packed >> 16) & 0xFF == red && (packed >> 8) & 0xFF == green && (packed >> 0) & 0xFF
        == blue && (packed >> 24) & 0xFF == 0) by (bit_vector)
        requires
            red <= 255,
            green <= 255,
            blue <= 255,
            packed == (red << 16) | (green << 8) | blue,
    ;
}

/// A weighted mean of two channels is a channel.
pub proof fn lemma_mix_is_a_channel(src: u32, dst: u32, alpha: u32)
    requires
        src <= 255,
        dst <= 255,
        alpha <= 255,
    ensures
        spec_mix(src, dst, alpha) == (src * alpha + dst * (255 - alpha)) / 255,
        spec_mix(src, dst, alpha) <= 255,
{
    assert(0 <= src * alpha + dst * (255 - alpha) <= 255 * 255) by (nonlinear_arith)
        requires
            0 <= src <= 255,
            0 <= dst <= 255,
            0 <= alpha <= 255,
    ;
}

/// The pixel that `src` leaves on top of `dst`.
pub fn blend(dst: u32, src: u32) -> (r: u32)
    ensures
        r == spec_blend(dst, src),
{
    let alpha: u32 = channel(src, 24);
    if alpha == 0 {
        dst
    } else if alpha == 255 {
        src & 0xFFFFFF
    } else {
        let red: u32 = mix(channel(src, 16), channel(dst, 16), alpha);
        let green: u32 = mix(channel(src, 8), channel(dst, 8), alpha);
        let blue: u32 = mix(channel(src, 0), channel(dst, 0), alpha);
        (red << 16) | (green << 8) | blue
    }
}

/// The coordinate along an axis of the texture that a pixel of a disc
/// shows, for the pixel's offset from the centre along that axis:
/// `0.5 + offset / (2 * radius)`, from 0 at one rim through 0.5 at the
/// centre to 1 at the other rim.
pub open spec fn spec_disc_coordinate(
    reals: Arithmetic,
    offset: int,
    radius: int,
) -> u64 {
    spec_sum(
        reals,
        HALF,
        spec_quotient(
            reals,
            spec_from_integer(reals, offset),
            spec_product(reals, TWO, spec_from_integer(reals, radius)),
        ),
    )
}

/// The coordinate along an axis of the texture that a pixel of a disc shows.
pub fn disc_coordinate<R: Fn(Op, u64, u64) -> u64>(reals: &R, offset: i32, radius: i32) -> (r: u64)
    requires
        is_arithmetic(*reals),
    ensures
        r == spec_disc_coordinate(answers(*reals), offset as int, radius as int),
{
    let diameter: u64 = product(reals, TWO, from_integer(reals, radius as i64));
    sum(reals, HALF, quotient(reals, from_integer(reals, offset as i64), diameter))
}

/// What drawing a sprite makes of the pixel at the offset `(dx, dy)` from
/// the centre of the disc: the texel that the pixel shows is blended over
/// it. Where there is no such texel the pixel stays as it was.
pub open spec fn sprite_pixel(
    reals: Arithmetic,
    texture: Texture,
    radius: int,
    dx: int,
    dy: int,
    before: u32,
) -> u32 {
    match texture.spec_sample(
        spec_disc_coordinate(reals, dx, radius),
        spec_disc_coordinate(reals, dy, radius),
        reals,
    ) {
        Some(texel) => spec_blend(before, texel),
        None => before,
    }
}

/// Draws `texture` onto the disc of the given centre and radius, as far as
/// the disc lies inside the buffer: the texture is stretched over the square
/// around the disc, and each pixel of the disc is blended with the texel
/// that comes to lie on it.
pub fn draw_circular_sprite<R: Fn(Op, u64, u64) -> u64>(
    buffer: &mut [u32],
    width: usize,
    height: usize,
    cx: i32,
    cy: i32,
    radius: i32,
    texture: &Texture,
    reals: &R,
)
    requires
        width <= MAX_SIDE,
        height <= MAX_SIDE,
        width * height <= old(buffer)@.len(),
        texture.wf(),
        is_arithmetic(*reals),
    ensures
        final(buffer)@.len() == old(buffer)@.len(),
        forall|i: int|
            0 <= i < old(buffer)@.len() ==> #[trigger] final(buffer)@[i] == if i < width * height
                && in_disc(i % (width as int) - cx, i / (width as int) - cy, radius as int) {
                sprite_pixel(
                    answers(*reals),
                    *texture,
                    radius as int,
                    i % (width as int) - cx,
                    i / (width as int) - cy,
                    old(buffer)@[i],
                )
            } else {
                old(buffer)@[i]
            },
{
    let r: i64 = radius as i64;
    let mut dy: i64 = -r;
    while dy <= r
        invariant
            r == radius,
            buffer.len() == buffer@.len(),
            -r <= dy,
            r >= 0 ==> dy <= r + 1,
            width <= MAX_SIDE,
            height <= MAX_SIDE,
            width * height <= buffer@.len(),
            buffer@.len() == old(buffer)@.len(),
            texture.wf(),
            is_arithmetic(*reals),
            forall|i: int|
                0 <= i < buffer@.len() ==> #[trigger] buffer@[i] == if i < width * height
                    && in_disc(i % (width as int) - cx, i / (width as int) - cy, r as int) && i / (
                width as int) - cy < dy {
                    sprite_pixel(
                        answers(*reals),
                        *texture,
                        radius as int,
                        i % (width as int) - cx,
                        i / (width as int) - cy,
                        old(buffer)@[i],
                    )
                } else {
                    old(buffer)@[i]
                },
        decreases r - dy + 1,
    {
        let ghost row = dy;
        let mut dx: i64 = -r;
        while dx <= r
            invariant
                r == radius,
                buffer.len() == buffer@.len(),
                dy == row,
                -r <= dy <= r,
                -r <= dx <= r + 1,
                width <= MAX_SIDE,
                height <= MAX_SIDE,
                width * height <= buffer@.len(),
                buffer@.len() == old(buffer)@.len(),
                texture.wf(),
                is_arithmetic(*reals),
                forall|i: int|
                    0 <= i < buffer@.len() ==> #[trigger] buffer@[i] == if i < width * height
                        && in_disc(i % (width as int) - cx, i / (width as int) - cy, r as int)
                        && walked(
                        i % (width as int) - cx,
                        i / (width as int) - cy,
                        dx as int,
                        dy as int,
                    ) {
                        sprite_pixel(
                            answers(*reals),
                            *texture,
                            radius as int,
                            i % (width as int) - cx,
                            i / (width as int) - cy,
                            old(buffer)@[i],
                        )
                    } else {
                        old(buffer)@[i]
                    },
            decreases r - dx + 1,
        {
            assert(0 <= dx * dx <= 0x7FFF_FFFF * 0x7FFF_FFFF && 0 <= dy * dy <= 0x7FFF_FFFF
                * 0x7FFF_FFFF && 0 <= r * r <= 0x7FFF_FFFF * 0x7FFF_FFFF) by (nonlinear_arith)
                requires
                    -0x7FFF_FFFF <= dx <= 0x7FFF_FFFF,
                    -0x7FFF_FFFF <= dy <= 0x7FFF_FFFF,
                    0 <= r <= 0x7FFF_FFFF,
            ;
            let ghost before = buffer@;
            let px: i64 = cx as i64 + dx;
            let py: i64 = cy as i64 + dy;
            let inside: bool = dx * dx + dy * dy <= r * r && px >= 0 && px < width as i64 && py >= 0
                && py < height as i64;
            if inside {
                proof {
                    lemma_pixel_index(px as int, py as int, width as int, height as int);
                    assert(0 <= py * width) by (nonlinear_arith)
                        requires
                            0 <= py,
                            0 <= width,
                    ;
                }
                let index: usize = py as usize * width + px as usize;
                let u: u64 = disc_coordinate(reals, dx as i32, radius);
                let v: u64 = disc_coordinate(reals, dy as i32, radius);
                match texture.sample(u, v, reals) {
                    Some(texel) => {
                        let blended: u32 = blend(buffer[index], texel);
                        buffer[index] = blended;
                    },
                    None => {},
                }
                assert(buffer@[index as int] == sprite_pixel(
                    answers(*reals),
                    *texture,
                    radius as int,
                    dx as int,
                    dy as int,
                    before[index as int],
                ));
            }
            proof {
                assert forall|i: int| 0 <= i < buffer@.len() implies #[trigger] buffer@[i] == if i
                    < width * height && in_disc(
                    i % (width as int) - cx,
                    i / (width as int) - cy,
                    r as int,
                ) && walked(
                    i % (width as int) - cx,
                    i / (width as int) - cy,
                    dx + 1,
                    dy as int,
                ) {
                    sprite_pixel(
                        answers(*reals),
                        *texture,
                        radius as int,
                        i % (width as int) - cx,
                        i / (width as int) - cy,
                        old(buffer)@[i],
                    )
                } else {
                    old(buffer)@[i]
                } by {
                    if i < width * height {
                        assert(width > 0) by (nonlinear_arith)
                            requires
                                0 <= i < width * height,
                                0 <= width,
                        ;
                        lemma_index_pixel(i, width as int, height as int);
                        if inside {
                            lemma_pixel_index(px as int, py as int, width as int, height as int);
                        }
                    }
                    if !(inside && i == py * width + px) {
                        assert(buffer@[i] == before[i]);
                    }
                }
            }
            dx += 1;
        }
        dy += 1;
    }
}

} // verus!

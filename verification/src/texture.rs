//! Images that are mapped onto bodies.

use vstd::prelude::*;
use crate::scalar::{
    answers, from_integer, is_arithmetic, product, remainder, spec_from_integer, spec_product,
    spec_remainder, spec_to_integer, to_integer, Arithmetic, Op,
};

verus! {

/// A rectangular image, one `u32` per pixel in row-major order, each packed
/// as alpha, red, green, blue from the highest byte down.
#[derive(Debug, Clone)]
pub struct Texture {
    pub width: u32,
    pub height: u32,
    pub pixels: Vec<u32>,
}

/// `image::DynamicImage`, a decoded image. The library does not look into
/// it: what it holds is named by `image_width`, `image_height` and
/// `image_rgba8`.
#[verifier::external_type_specification]
#[verifier::external_body]
pub struct ExDynamicImage(image::DynamicImage);

/// `image::ImageError`, why an image could not be decoded. The library
/// carries it to where its message is written.
#[verifier::external_type_specification]
#[verifier::external_body]
pub struct ExImageError(image::ImageError);

/// `image::load_from_memory`: decodes an image file held in memory, guessing
/// its format. Nothing is claimed of what comes back.
pub assume_specification[ image::load_from_memory ](buffer: &[u8]) -> (r: image::ImageResult<
    image::DynamicImage,
>)
;

/// The width of a decoded image in pixels.
pub uninterp spec fn image_width(image: image::DynamicImage) -> u32;

/// The height of a decoded image in pixels.
pub uninterp spec fn image_height(image: image::DynamicImage) -> u32;

/// The pixels of a decoded image, converted to 8-bit red, green, blue and
/// alpha, row by row.
pub uninterp spec fn image_rgba8(image: image::DynamicImage) -> Seq<[u8; 4]>;

/// `image::DynamicImage::width`. Claimed: what it returns is the width of
/// the image, which depends on the image alone.
#[verifier::external_body]
fn width_of(image: &image::DynamicImage) -> (r: u32)
    ensures
        r == image_width(*image),
{
    image.width()
}

/// `image::DynamicImage::height`. Claimed: what it returns is the height of
/// the image, which depends on the image alone.
#[verifier::external_body]
fn height_of(image: &image::DynamicImage) -> (r: u32)
    ensures
        r == image_height(*image),
{
    image.height()
}

/// `image::DynamicImage::to_rgba8`, its pixels handed out one by one in the
/// order of `ImageBuffer::pixels`. Claimed: the pixels depend on the image
/// alone, and there are width times height of them. The conversion keeps
/// the image's width and height, and `pixels` walks the first
/// `4 * width * height` bytes of the buffer in chunks of 4.
#[verifier::external_body]
fn rgba8_of(image: &image::DynamicImage) -> (r: Vec<[u8; 4]>)
    ensures
        r@ == image_rgba8(*image),
        r@.len() == image_width(*image) as int * image_height(*image) as int,
{
    image.to_rgba8().pixels().map(|pixel| pixel.0).collect()
}

/// `Display` for `image::ImageError`: the text of the error, behind the
/// words that say what failed. Nothing is claimed of the text.
#[verifier::external_body]
fn load_error_message(error: &image::ImageError) -> (r: String) {
    format!("Failed to load embedded image: {}", error)
}

/// The four channels in one `u32`: alpha, red, green, blue from the highest
/// byte down.
pub open spec fn spec_pack(rgba: [u8; 4]) -> u32 {
    ((rgba[3] as u32) << 24) | ((rgba[0] as u32) << 16) | ((rgba[1] as u32) << 8) | (rgba[2] as u32)
}

/// Packing loses nothing: each channel can be read back from its byte.
pub proof fn law_pack_keeps_channels(rgba: [u8; 4])
    ensures
        (spec_pack(rgba) >> 24) & 0xFF == rgba[3],
        (spec_pack(rgba) >> 16) & 0xFF == rgba[0],
        (spec_pack(rgba) >> 8) & 0xFF == rgba[1],
        spec_pack(rgba) & 0xFF == rgba[2],
{
    let r = rgba[0];
    let g = rgba[1];
    let b = rgba[2];
    let a = rgba[3];
    let packed = ((a as u32) << 24) | ((r as u32) << 16) | ((g as u32) << 8) | (b as u32);
    assert((packed >> 24) & 0xFF == a && (packed >> 16) & 0xFF == r && (packed >> 8) & 0xFF == g
        && packed & 0xFF == b) by (bit_vector)
        requires
            packed == ((a as u32) << 24) | ((r as u32) << 16) | ((g as u32) << 8) | (b as u32),
    ;
}

/// The four channels in one `u32`.
pub fn pack(rgba: [u8; 4]) -> (r: u32)
    ensures
        r == spec_pack(rgba),
{
    ((rgba[3] as u32) << 24) | ((rgba[0] as u32) << 16) | ((rgba[1] as u32) << 8) | (rgba[2] as u32)
}

impl Texture {
    /// There is one pixel for every place of the rectangle.
    pub open spec fn wf(&self) -> bool {
        self.pixels@.len() == self.width as int * self.height as int
    }

    /// Whether there is one pixel for every place of the rectangle.
    pub fn is_wf(&self) -> (r: bool)
        ensures
            r == self.wf(),
    {
        assert(self.width as int * self.height as int <= 0xFFFF_FFFF * 0xFFFF_FFFF)
            by (nonlinear_arith)
            requires
                0 <= self.width <= 0xFFFF_FFFF,
                0 <= self.height <= 0xFFFF_FFFF,
        ;
        self.pixels.len() as u64 == self.width as u64 * self.height as u64
    }

    /// The texture of the given size whose pixels are `rgba`, packed. When
    /// `rgba` does not hold width times height pixels there is no such
    /// texture.
    pub fn from_rgba8(width: u32, height: u32, rgba: &Vec<[u8; 4]>) -> (r: Option<Texture>)
        ensures
            r is Some <==> rgba@.len() == width as int * height as int,
            r matches Some(texture) ==> {
                &&& texture.wf()
                &&& texture.width == width
                &&& texture.height == height
                &&& forall|i: int|
                    0 <= i < rgba@.len() ==> #[trigger] texture.pixels@[i] == spec_pack(rgba@[i])
            },
    {
        assert(width as int * height as int <= 0xFFFF_FFFF * 0xFFFF_FFFF) by (nonlinear_arith)
            requires
                0 <= width <= 0xFFFF_FFFF,
                0 <= height <= 0xFFFF_FFFF,
        ;
        let area: u64 = width as u64 * height as u64;
        if rgba.len() as u64 != area {
            return None;
        }
        let mut pixels: Vec<u32> = Vec::with_capacity(rgba.len());
        let mut i: usize = 0;
        while i < rgba.len()
            invariant
                i <= rgba@.len(),
                pixels@.len() == i,
                forall|k: int| 0 <= k < i ==> #[trigger] pixels@[k] == spec_pack(rgba@[k]),
            decreases rgba@.len() - i,
        {
            pixels.push(pack(rgba[i]));
            i += 1;
        }
        Some(Texture { width, height, pixels })
    }

    /// The texture holds the pixels of `image`, packed.
    pub open spec fn shows(&self, image: image::DynamicImage) -> bool {
        &&& self.wf()
        &&& self.width == image_width(image)
        &&& self.height == image_height(image)
        &&& forall|i: int|
            0 <= i < self.pixels@.len() ==> #[trigger] self.pixels@[i] == spec_pack(
                image_rgba8(image)[i],
            )
    }

    /// The texture that an image file held in memory decodes to. Fails with
    /// a message when the decoder refuses the bytes.
    pub fn load_from_bytes(bytes: &[u8]) -> (r: Result<Texture, String>)
        ensures
            r is Ok ==> exists|image: image::DynamicImage| #[trigger] r->Ok_0.shows(image),
    {
        Self::from_decoded(image::load_from_memory(bytes))
    }

    /// The texture of a decoded image.
    pub fn from_dynamic_image(image: &image::DynamicImage) -> (r: Texture)
        ensures
            r.shows(*image),
    {
        let width = width_of(image);
        let height = height_of(image);
        let rgba = rgba8_of(image);
        match Self::from_rgba8(width, height, &rgba) {
            Some(texture) => texture,
            None => vstd::pervasive::unreached(),
        }
    }

    /// What becomes of the answer of the decoder: an image becomes the
    /// texture that shows it, and an error becomes its message. Whether the
    /// decoder accepts given bytes is its own to say, and may depend on the
    /// formats that the process has made known to it.
    pub fn from_decoded(decoded: Result<image::DynamicImage, image::ImageError>) -> (r: Result<
        Texture,
        String,
    >)
        ensures
            decoded is Ok <==> r is Ok,
            decoded is Ok ==> r->Ok_0.shows(decoded->Ok_0),
    {
        match decoded {
            Ok(image) => Ok(Self::from_dynamic_image(&image)),
            Err(error) => Err(load_error_message(&error)),
        }
    }

    /// The pixel in column `x` of row `y`.
    pub fn texel(&self, x: u32, y: u32) -> (r: u32)
        requires
            self.wf(),
            x < self.width,
            y < self.height,
        ensures
            r == self.pixels@[y as int * self.width as int + x as int],
    {
        assert(0 <= (y as int) * (self.width as int) + (x as int) && (y as int) * (
        self.width as int) + (x as int) < (self.width as int) * (self.height as int))
            by (nonlinear_arith)
            requires
                0 <= x < self.width,
                0 <= y < self.height,
        ;
        assert(0 <= (y as int) * (self.width as int)) by (nonlinear_arith)
            requires
                0 <= y,
                0 <= self.width,
        ;
        assert(self.pixels.len() == self.pixels@.len());
        let index: usize = y as usize * self.width as usize + x as usize;
        self.pixels[index]
    }

    /// The column or row of the texel at the coordinate `t` along an axis
    /// of `size` texels: `t * size`, wrapped into the range from 0 to `size`
    /// and cut to an integer. A coordinate from 0 up to 1 covers the axis
    /// once.
    pub open spec fn spec_texel_index(reals: Arithmetic, t: u64, size: u32) -> u64 {
        spec_to_integer(
            reals,
            spec_remainder(
                reals,
                spec_product(reals, t, spec_from_integer(reals, size as int)),
                spec_from_integer(reals, size as int),
            ),
        )
    }

    /// The column or row of the texel at the coordinate `t`.
    pub fn texel_index<R: Fn(Op, u64, u64) -> u64>(reals: &R, t: u64, size: u32) -> (r: u64)
        requires
            is_arithmetic(*reals),
        ensures
            r == Self::spec_texel_index(answers(*reals), t, size),
    {
        let scaled: u64 = product(reals, t, from_integer(reals, size as i64));
        to_integer(reals, remainder(reals, scaled, from_integer(reals, size as i64)))
    }

    /// The pixel at the coordinates `(u, v)`, each of which covers the
    /// texture once as it goes from 0 up to 1. There is none where the
    /// arithmetic puts the texel outside the texture.
    pub fn sample<R: Fn(Op, u64, u64) -> u64>(&self, u: u64, v: u64, reals: &R) -> (r: Option<u32>)
        requires
            is_arithmetic(*reals),
            self.wf(),
        ensures
            r == self.spec_sample(u, v, answers(*reals)),
    {
        let x: u64 = Self::texel_index(reals, u, self.width);
        let y: u64 = Self::texel_index(reals, v, self.height);
        if x < self.width as u64 && y < self.height as u64 {
            Some(self.texel(x as u32, y as u32))
        } else {
            None
        }
    }

    /// The pixel at the coordinates `(u, v)`.
    pub open spec fn spec_sample(&self, u: u64, v: u64, reals: Arithmetic) -> Option<
        u32,
    > {
        let x = Self::spec_texel_index(reals, u, self.width);
        let y = Self::spec_texel_index(reals, v, self.height);
        if x < self.width && y < self.height {
            Some(self.pixels@[y as int * self.width as int + x as int])
        } else {
            None
        }
    }
}

} // verus!

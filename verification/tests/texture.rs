use spaceflight::scalar::Op;
use spaceflight::texture::{pack, Texture};

/// The arithmetic of binary64 numbers on their bit patterns.
fn reals(op: Op, a: u64, b: u64) -> u64 {
    let x = f64::from_bits(a);
    let y = f64::from_bits(b);
    let r = match op {
        Op::Add => x + y,
        Op::Sub => x - y,
        Op::Mul => x * y,
        Op::Div => x / y,
        Op::Sqrt => x.sqrt(),
        Op::Sin => x.sin(),
        Op::Cos => x.cos(),
        Op::Powi => x.powi(b as i32),
        Op::Powf => x.powf(y),
        Op::RemEuclid => x.rem_euclid(y),
        Op::FromInt => {
            if b == 1 {
                -(a as f64)
            } else {
                a as f64
            }
        }
        Op::ToInt => return x as u64,
        Op::ToSigned => return x as i32 as u32 as u64,
    };
    r.to_bits()
}

const PNG_3_BY_2: [u8; 88] = [
    137, 80, 78, 71, 13, 10, 26, 10, 0, 0, 0, 13, 73, 72, 68, 82, 0, 0, 0, 3, 0, 0, 0, 2, 8, 6, 0,
    0, 0, 157, 116, 102, 26, 0, 0, 0, 31, 73, 68, 65, 84, 120, 156, 99, 248, 207, 192, 240, 31, 8,
    27, 64, 20, 3, 35, 19, 51, 203, 175, 223, 127, 254, 10, 40, 56, 156, 0, 0, 118, 154, 9, 173,
    108, 89, 203, 28, 0, 0, 0, 0, 73, 69, 78, 68, 174, 66, 96, 130,
];

const GRAY_PNG_2_BY_1: [u8; 68] = [
    137, 80, 78, 71, 13, 10, 26, 10, 0, 0, 0, 13, 73, 72, 68, 82, 0, 0, 0, 2, 0, 0, 0, 1, 8, 0, 0,
    0, 0, 209, 73, 32, 86, 0, 0, 0, 11, 73, 68, 65, 84, 120, 156, 99, 96, 56, 1, 0, 0, 203, 0, 201,
    105, 200, 195, 108, 0, 0, 0, 0, 73, 69, 78, 68, 174, 66, 96, 130,
];

#[test]
fn pack_puts_alpha_on_top() {
    assert_eq!(pack([0x11, 0x22, 0x33, 0x44]), 0x44112233);
    assert_eq!(pack([255, 0, 0, 255]), 0xFFFF0000);
    assert_eq!(pack([0, 0, 0, 0]), 0);
    assert_eq!(pack([1, 2, 3, 4]), 0x04010203);
    assert_eq!(pack([255, 255, 255, 255]), 0xFFFFFFFF);
}

#[test]
fn from_rgba8_packs_every_pixel() {
    let rgba = vec![[1, 2, 3, 4], [5, 6, 7, 8], [9, 10, 11, 12], [13, 14, 15, 16], [0; 4], [255; 4]];
    let texture = Texture::from_rgba8(3, 2, &rgba).unwrap();
    assert_eq!(texture.width, 3);
    assert_eq!(texture.height, 2);
    assert_eq!(
        texture.pixels,
        vec![0x04010203, 0x08050607, 0x0C090A0B, 0x100D0E0F, 0, 0xFFFFFFFF]
    );
}

#[test]
fn from_rgba8_wants_one_pixel_per_place() {
    let rgba = vec![[1, 2, 3, 4]; 5];
    assert!(Texture::from_rgba8(3, 2, &rgba).is_none());
    assert!(Texture::from_rgba8(5, 1, &rgba).is_some());
    assert!(Texture::from_rgba8(1, 5, &rgba).is_some());
    assert!(Texture::from_rgba8(0, 5, &rgba).is_none());
    assert!(Texture::from_rgba8(0, 7, &vec![]).is_some());
    assert!(Texture::from_rgba8(u32::MAX, u32::MAX, &rgba).is_none());
}

#[test]
fn texel_reads_row_by_row() {
    let rgba: Vec<[u8; 4]> = (0..6u8).map(|i| [i, 0, 0, 255]).collect();
    let texture = Texture::from_rgba8(3, 2, &rgba).unwrap();
    assert_eq!(texture.texel(0, 0), 0xFF000000);
    assert_eq!(texture.texel(2, 0), 0xFF020000);
    assert_eq!(texture.texel(0, 1), 0xFF030000);
    assert_eq!(texture.texel(2, 1), 0xFF050000);
}

#[test]
fn load_from_bytes_decodes_a_png() {
    let texture = Texture::load_from_bytes(&PNG_3_BY_2).unwrap();
    assert_eq!(texture.width, 3);
    assert_eq!(texture.height, 2);
    assert_eq!(
        texture.pixels,
        vec![0xFFFF0000, 0x8000FF00, 0x000000FF, 0x04010203, 0xFDFAFBFC, 0xC8102040]
    );
}

#[test]
fn load_from_bytes_converts_gray_to_colour() {
    let texture = Texture::load_from_bytes(&GRAY_PNG_2_BY_1).unwrap();
    assert_eq!((texture.width, texture.height), (2, 1));
    assert_eq!(texture.pixels, vec![0xFF000000, 0xFFC8C8C8]);
}

#[test]
fn load_from_bytes_refuses_what_is_no_image() {
    let error = Texture::load_from_bytes(b"not an image").unwrap_err();
    assert!(error.starts_with("Failed to load embedded image: "));
    assert!(error.len() > "Failed to load embedded image: ".len());
    assert!(Texture::load_from_bytes(&[]).is_err());
    assert!(Texture::load_from_bytes(&PNG_3_BY_2[..40]).is_err());
}

#[test]
fn from_dynamic_image_keeps_size_and_pixels() {
    let buffer = image::RgbaImage::from_raw(2, 2, vec![1, 2, 3, 4, 5, 6, 7, 8, 9, 10, 11, 12, 13, 14, 15, 16])
        .unwrap();
    let texture = Texture::from_dynamic_image(&image::DynamicImage::ImageRgba8(buffer));
    assert_eq!((texture.width, texture.height), (2, 2));
    assert_eq!(texture.pixels, vec![0x04010203, 0x08050607, 0x0C090A0B, 0x100D0E0F]);
    let wide = image::RgbImage::from_raw(3, 1, vec![10, 20, 30, 40, 50, 60, 70, 80, 90]).unwrap();
    let texture = Texture::from_dynamic_image(&image::DynamicImage::ImageRgb8(wide));
    assert_eq!((texture.width, texture.height), (3, 1));
    assert_eq!(texture.pixels, vec![0xFF0A141E, 0xFF28323C, 0xFF46505A]);
}

#[test]
fn from_dynamic_image_ignores_spare_bytes_of_the_buffer() {
    let mut raw = vec![1, 2, 3, 4, 5, 6, 7, 8];
    raw.extend_from_slice(&[9; 12]);
    let buffer = image::RgbaImage::from_raw(2, 1, raw).unwrap();
    let texture = Texture::from_dynamic_image(&image::DynamicImage::ImageRgba8(buffer));
    assert_eq!((texture.width, texture.height), (2, 1));
    assert_eq!(texture.pixels, vec![0x04010203, 0x08050607]);
}

#[test]
fn from_dynamic_image_of_an_empty_image() {
    let texture = Texture::from_dynamic_image(&image::DynamicImage::new_rgba8(0, 0));
    assert_eq!((texture.width, texture.height), (0, 0));
    assert!(texture.pixels.is_empty());
}

#[test]
fn coordinates_are_wrapped_into_the_texels() {
    let at = |t: f64, size: u32| Texture::texel_index(&reals, t.to_bits(), size);
    assert_eq!(at(0.0, 4), 0);
    assert_eq!(at(0.24, 4), 0);
    assert_eq!(at(0.25, 4), 1);
    assert_eq!(at(0.99, 4), 3);
    assert_eq!(at(1.0, 4), 0);
    assert_eq!(at(1.3, 4), 1);
    assert_eq!(at(-0.1, 4), 3);
    assert_eq!(at(0.5, 1), 0);
    assert_eq!(at(0.5, 0), 0);
    assert_eq!(at(0.5, 1000), ((0.5f64 * 1000.0).rem_euclid(1000.0)) as u64);
}

#[test]
fn a_texture_is_well_formed_when_it_holds_every_pixel() {
    assert!(Texture { width: 2, height: 3, pixels: vec![0; 6] }.is_wf());
    assert!(!Texture { width: 2, height: 3, pixels: vec![0; 5] }.is_wf());
    assert!(!Texture { width: 2, height: 3, pixels: vec![0; 7] }.is_wf());
    assert!(Texture { width: 0, height: 3, pixels: vec![] }.is_wf());
    assert!(!Texture { width: u32::MAX, height: u32::MAX, pixels: vec![0; 1] }.is_wf());
}

#[test]
fn a_decoded_image_becomes_its_texture() {
    let texture = Texture::from_decoded(image::load_from_memory(&PNG_3_BY_2)).unwrap();
    assert_eq!((texture.width, texture.height), (3, 2));
    assert_eq!(
        texture.pixels,
        vec![0xFFFF0000, 0x8000FF00, 0x000000FF, 0x04010203, 0xFDFAFBFC, 0xC8102040]
    );
    let buffer = image::RgbaImage::from_raw(1, 2, vec![1, 2, 3, 4, 5, 6, 7, 8]).unwrap();
    let texture = Texture::from_decoded(Ok(image::DynamicImage::ImageRgba8(buffer))).unwrap();
    assert_eq!((texture.width, texture.height), (1, 2));
    assert_eq!(texture.pixels, vec![0x04010203, 0x08050607]);
}

#[test]
fn a_decoding_error_becomes_its_message() {
    let refused = image::load_from_memory(b"not an image");
    let text = refused.as_ref().unwrap_err().to_string();
    let message = Texture::from_decoded(refused).unwrap_err();
    assert_eq!(message, format!("Failed to load embedded image: {}", text));
    assert!(Texture::from_decoded(image::load_from_memory(&PNG_3_BY_2[..30])).is_err());
}

#[test]
fn load_from_bytes_is_the_decoding_and_what_becomes_of_it() {
    for bytes in [&PNG_3_BY_2[..], &GRAY_PNG_2_BY_1[..], &PNG_3_BY_2[..50], b"", b"GIF89a"] {
        let direct = Texture::load_from_bytes(bytes);
        let stepwise = Texture::from_decoded(image::load_from_memory(bytes));
        match (direct, stepwise) {
            (Ok(a), Ok(b)) => {
                assert_eq!((a.width, a.height), (b.width, b.height));
                assert_eq!(a.pixels, b.pixels);
            }
            (Err(a), Err(b)) => assert_eq!(a, b),
            _ => panic!("the two ways differ"),
        }
    }
}

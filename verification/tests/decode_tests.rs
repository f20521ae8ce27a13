use std::io::Cursor;

use image::codecs::gif::GifEncoder;
use image::{Delay, Frame, Rgba, RgbaImage};
use lightningview::decode::{
    decode_animated, decode_bytes, decode_next_gen, decode_sensor_raw, decode_standard_raster,
};
use lightningview::errors::ViewerError;
use lightningview::model::LoadedImage;

fn png_bytes(w: u32, h: u32) -> Vec<u8> {
    let mut img = RgbaImage::new(w, h);
    for (x, y, p) in img.enumerate_pixels_mut() {
        *p = Rgba([(x % 256) as u8, (y % 256) as u8, 7, 255]);
    }
    let mut buf = Vec::new();
    img.write_to(&mut Cursor::new(&mut buf), image::ImageFormat::Png).unwrap();
    buf
}

fn gif_bytes(frames: u32, w: u32, h: u32) -> Vec<u8> {
    let mut buf = Vec::new();
    {
        let mut enc = GifEncoder::new(&mut buf);
        for f in 0..frames {
            let img = RgbaImage::from_pixel(w, h, Rgba([(40 * f) as u8, 0, 0, 255]));
            let frame = Frame::from_parts(img, 0, 0, Delay::from_numer_denom_ms(100, 1));
            enc.encode_frames(std::iter::once(frame)).unwrap();
        }
    }
    buf
}

#[test]
fn raster_round_trip_keeps_dimensions() {
    let bytes = png_bytes(13, 7);
    let b = decode_standard_raster("shot.png", &bytes).unwrap();
    assert_eq!((b.width, b.height), (13, 7));
    assert_eq!(b.pixels.len(), 13 * 7 * 4);
}

#[test]
fn raster_decode_reads_real_pixel_values() {
    let bytes = png_bytes(4, 2);
    let b = decode_standard_raster("shot.png", &bytes).unwrap();
    // pixel (3, 1) was written as (3, 1, 7, 255)
    let at = (1 * 4 + 3) * 4;
    assert_eq!(&b.pixels[at..at + 4], &[3, 1, 7, 255]);
}

#[test]
fn unidentifiable_container_is_an_open_failure() {
    let r = decode_standard_raster("shot.png", &[0u8, 1, 2, 3, 4, 5, 6, 7]);
    assert!(matches!(r, Err(ViewerError::OpenFailure(_))));
}

#[test]
fn corrupt_raster_payload_is_a_decode_failure() {
    // A valid PNG signature followed by garbage: the container is
    // identified, the payload is not decodable.
    let mut bytes = vec![0x89u8, b'P', b'N', b'G', 0x0d, 0x0a, 0x1a, 0x0a];
    bytes.extend_from_slice(&[0u8; 32]);
    let r = decode_standard_raster("shot.png", &bytes);
    assert!(matches!(r, Err(ViewerError::DecodeFailure(_))));
}

#[test]
fn animated_round_trip_keeps_frames_and_dimensions() {
    let bytes = gif_bytes(3, 9, 5);
    let frames = decode_animated(&bytes).unwrap();
    assert_eq!(frames.len(), 3);
    for f in &frames {
        assert_eq!((f.bitmap.width, f.bitmap.height), (9, 5));
        assert_eq!(f.delay_ms, 100);
    }
}

#[test]
fn corrupt_animated_payload_is_a_decode_failure() {
    let r = decode_animated(&[b'G', b'I', b'F', 0, 0]);
    assert!(matches!(r, Err(ViewerError::DecodeFailure(_))));
}

#[test]
fn sensor_raw_rejects_garbage() {
    let r = decode_sensor_raw(&[0u8; 64]);
    assert!(matches!(r, Err(ViewerError::DecodeFailure(_))));
}

#[test]
fn next_gen_normalizes_depth_to_8_bits() {
    // One pixel of 4-bit RGBA samples: v maps to v * 255 / 15 == v * 17.
    let samples: Vec<u16> = vec![0, 5, 10, 15];
    let b = decode_next_gen(1, 1, 4, &samples).unwrap();
    assert_eq!(b.pixels, vec![0, 85, 170, 255]);
}

#[test]
fn next_gen_16_bit_round_trip_keeps_dimensions() {
    let samples: Vec<u16> = vec![65535; 3 * 2 * 4];
    let b = decode_next_gen(3, 2, 16, &samples).unwrap();
    assert_eq!((b.width, b.height), (3, 2));
    assert!(b.pixels.iter().all(|&v| v == 255));
}

#[test]
fn next_gen_rejects_bad_inputs() {
    let samples: Vec<u16> = vec![0, 0, 0, 0];
    assert!(matches!(
        decode_next_gen(1, 1, 0, &samples),
        Err(ViewerError::DecodeFailure(_))
    ));
    assert!(matches!(
        decode_next_gen(1, 1, 17, &samples),
        Err(ViewerError::DecodeFailure(_))
    ));
    assert!(matches!(decode_next_gen(0, 1, 8, &samples), Err(ViewerError::EmptyResult)));
    // a sample that does not fit the declared depth
    let over: Vec<u16> = vec![16, 0, 0, 0];
    assert!(matches!(
        decode_next_gen(1, 1, 4, &over),
        Err(ViewerError::DecodeFailure(_))
    ));
    // buffer length not matching the dimensions
    let short: Vec<u16> = vec![0; 7];
    assert!(matches!(
        decode_next_gen(2, 1, 8, &short),
        Err(ViewerError::DecodeFailure(_))
    ));
}

#[test]
fn tga_decodes_through_the_format_hint() {
    // TGA has no recognizable signature, so content sniffing alone cannot
    // find it: the classified extension must reach the codec as a hint.
    let img = RgbaImage::from_pixel(5, 3, Rgba([10, 20, 30, 255]));
    let mut bytes = Vec::new();
    img.write_to(&mut Cursor::new(&mut bytes), image::ImageFormat::Tga).unwrap();
    let b = decode_standard_raster("shot.tga", &bytes).unwrap();
    assert_eq!((b.width, b.height), (5, 3));
    assert_eq!(&b.pixels[0..4], &[10, 20, 30, 255]);
    match decode_bytes("shot.TGA", &bytes).unwrap() {
        LoadedImage::Still(b) => assert_eq!((b.width, b.height), (5, 3)),
        LoadedImage::Animation(_) => panic!("a tga is a still image"),
    }
}

#[test]
fn dispatch_routes_by_file_name() {
    let png = png_bytes(6, 4);
    match decode_bytes("shot.png", &png).unwrap() {
        LoadedImage::Still(b) => assert_eq!((b.width, b.height), (6, 4)),
        LoadedImage::Animation(_) => panic!("a png is a still image"),
    }
    let gif = gif_bytes(2, 3, 3);
    match decode_bytes("loop.gif", &gif).unwrap() {
        LoadedImage::Animation(frames) => assert_eq!(frames.len(), 2),
        LoadedImage::Still(_) => panic!("a gif is an animation"),
    }
}

#[test]
fn dispatch_rejects_unsupported_names_without_decoding() {
    let png = png_bytes(6, 4);
    assert!(matches!(
        decode_bytes("shot.txt", &png),
        Err(ViewerError::UnsupportedFormat)
    ));
}

#[test]
fn dispatch_does_not_decode_scientific_payloads_from_memory() {
    let r = decode_bytes("galaxy.fits", &[0u8; 16]);
    assert!(matches!(r, Err(ViewerError::OpenFailure(_))));
}

#[test]
fn zero_frame_animation_is_an_empty_result() {
    // A GIF header with no image data decodes to zero frames.
    let mut buf = Vec::new();
    {
        let img = RgbaImage::from_pixel(2, 2, Rgba([1, 2, 3, 255]));
        let frame = Frame::from_parts(img, 0, 0, Delay::from_numer_denom_ms(50, 1));
        let mut enc = GifEncoder::new(&mut buf);
        enc.encode_frames(std::iter::once(frame)).unwrap();
    }
    // Truncate right after the header/screen descriptor: no frame remains.
    buf.truncate(13);
    let r = decode_animated(&buf);
    assert!(matches!(
        r,
        Err(ViewerError::EmptyResult) | Err(ViewerError::DecodeFailure(_))
    ));
}

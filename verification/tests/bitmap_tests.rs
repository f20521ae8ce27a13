use lightningview::bitmap::{Bitmap, MAX_DIM};
use lightningview::errors::ViewerError;

#[test]
fn rgba_buffer_is_wrapped_unchanged() {
    let pixels: Vec<u8> = (0u8..32).collect();
    let b = Bitmap::from_rgba(4, 2, pixels.clone()).unwrap();
    assert_eq!((b.width, b.height), (4, 2));
    assert_eq!(b.pixels, pixels);
}

#[test]
fn rgb_expansion_interleaves_an_opaque_alpha() {
    // Two pixels of packed RGB, as the sensor pipeline hands them out.
    let rgb: Vec<u8> = vec![1, 2, 3, 200, 100, 50];
    let b = Bitmap::from_rgb(2, 1, &rgb).unwrap();
    assert_eq!(b.pixels, vec![1, 2, 3, 255, 200, 100, 50, 255]);
}

#[test]
fn gray_broadcast_fills_all_three_channels() {
    let gray: Vec<u8> = vec![9, 77];
    let b = Bitmap::from_gray(1, 2, &gray).unwrap();
    assert_eq!(b.pixels, vec![9, 9, 9, 255, 77, 77, 77, 255]);
}

#[test]
fn zero_dimensions_are_an_empty_result() {
    assert!(matches!(
        Bitmap::from_rgba(0, 5, Vec::new()),
        Err(ViewerError::EmptyResult)
    ));
    assert!(matches!(
        Bitmap::from_rgb(5, 0, &Vec::new()),
        Err(ViewerError::EmptyResult)
    ));
}

#[test]
fn mismatched_buffer_lengths_are_rejected() {
    assert!(matches!(
        Bitmap::from_rgba(2, 2, vec![0u8; 15]),
        Err(ViewerError::DecodeFailure(_))
    ));
    assert!(matches!(
        Bitmap::from_rgb(2, 2, &vec![0u8; 13]),
        Err(ViewerError::DecodeFailure(_))
    ));
    assert!(matches!(
        Bitmap::from_gray(2, 2, &vec![0u8; 3]),
        Err(ViewerError::DecodeFailure(_))
    ));
}

#[test]
fn oversized_dimensions_are_rejected() {
    assert!(matches!(
        Bitmap::from_rgba(MAX_DIM + 1, 1, vec![0u8; 8]),
        Err(ViewerError::DecodeFailure(_))
    ));
}

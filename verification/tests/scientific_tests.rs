use lightningview::errors::ViewerError;
use lightningview::scientific::decode_scientific;

#[test]
fn wrong_axis_count_is_a_shape_mismatch() {
    let shape = vec![4usize, 4];
    let samples = vec![0i64; 16];
    assert!(matches!(
        decode_scientific(&shape, &samples),
        Err(ViewerError::ShapeMismatch)
    ));
}

#[test]
fn wrong_plane_count_is_a_shape_mismatch() {
    let shape = vec![4usize, 4, 4];
    let samples = vec![0i64; 64];
    assert!(matches!(
        decode_scientific(&shape, &samples),
        Err(ViewerError::ShapeMismatch)
    ));
}

#[test]
fn zero_area_is_an_empty_result() {
    let shape = vec![0usize, 4, 3];
    let samples = Vec::new();
    assert!(matches!(
        decode_scientific(&shape, &samples),
        Err(ViewerError::EmptyResult)
    ));
}

#[test]
fn sample_count_must_match_the_shape() {
    let shape = vec![2usize, 2, 3];
    let samples = vec![0i64; 11];
    assert!(matches!(
        decode_scientific(&shape, &samples),
        Err(ViewerError::DecodeFailure(_))
    ));
}

#[test]
fn oversized_samples_are_rejected() {
    let shape = vec![1usize, 1, 3];
    let samples = vec![i64::MAX, 0, 0];
    assert!(matches!(
        decode_scientific(&shape, &samples),
        Err(ViewerError::DecodeFailure(_))
    ));
}

#[test]
fn constant_field_decodes_to_a_constant_bitmap() {
    let shape = vec![3usize, 5, 3];
    let samples = vec![250i64; 3 * 5 * 3];
    let b = decode_scientific(&shape, &samples).unwrap();
    assert_eq!((b.width, b.height), (5, 3));
    for p in 0..15 {
        assert_eq!(&b.pixels[p * 4..p * 4 + 4], &[0, 0, 0, 255]);
    }
}

#[test]
fn all_positive_field_spans_the_full_output_range() {
    // A 4000x3000 all-positive fixture: the brightest pixel must come out
    // as 255, the dimmest as 0, and ordering must be preserved end to end.
    let (h, w) = (3000usize, 4000usize);
    let mut samples = vec![0i64; h * w * 3];
    for p in 0..h * w {
        let v = (p % 10000) as i64 + 1;
        samples[3 * p] = v;
        samples[3 * p + 1] = v;
        samples[3 * p + 2] = v;
    }
    let b = decode_scientific(&vec![h, w, 3], &samples).unwrap();
    assert_eq!((b.width, b.height), (w, h));
    let gray: Vec<u8> = (0..h * w).map(|p| b.pixels[4 * p]).collect();
    assert_eq!(*gray.iter().min().unwrap(), 0);
    assert_eq!(*gray.iter().max().unwrap(), 255);
    // gray is a broadcast: all three channels equal, alpha opaque
    for p in [0usize, 1234, h * w - 1] {
        assert_eq!(b.pixels[4 * p], b.pixels[4 * p + 1]);
        assert_eq!(b.pixels[4 * p + 1], b.pixels[4 * p + 2]);
        assert_eq!(b.pixels[4 * p + 3], 255);
    }
    // strictly greater samples stay at least as bright
    for p in 0..9999 {
        assert!(gray[p + 1] >= gray[p]);
    }
}

#[test]
fn luma_weights_drive_the_grayscale() {
    // Two pixels, one pure green and one pure blue: green carries the
    // larger NTSC weight, so it must map brighter.
    let shape = vec![1usize, 3, 3];
    let samples = vec![
        0i64, 1000, 0, // green
        0, 0, 1000, // blue
        0, 0, 0, // black
    ];
    let b = decode_scientific(&shape, &samples).unwrap();
    let g = b.pixels[0];
    let bl = b.pixels[4];
    let black = b.pixels[8];
    assert_eq!(black, 0);
    assert_eq!(g, 255, "the brightest pixel is pure green");
    assert!(bl > 0 && bl < g);
}

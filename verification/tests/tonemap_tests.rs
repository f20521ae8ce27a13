use lightningview::tonemap::tone_map;

#[test]
fn constant_input_gives_constant_output() {
    let samples: Vec<i64> = vec![42; 1000];
    let out = tone_map(&samples);
    assert_eq!(out.len(), 1000);
    for v in &out {
        assert_eq!(*v, out[0]);
    }
    assert_eq!(out[0], 0);
}

#[test]
fn constant_negative_input_gives_constant_output() {
    let samples: Vec<i64> = vec![-7_000_000; 64];
    let out = tone_map(&samples);
    for v in &out {
        assert_eq!(*v, 0);
    }
}

#[test]
fn extremes_map_to_0_and_255() {
    let samples: Vec<i64> = vec![10, 500, 999, 10_000, 37];
    let out = tone_map(&samples);
    assert_eq!(out[0], 0, "the dimmest sample maps to 0");
    assert_eq!(out[3], 255, "the brightest sample maps to 255");
}

#[test]
fn order_is_preserved_end_to_end() {
    let samples: Vec<i64> = vec![5, -3, 12, 0, 12, 7, -3, 100, 55];
    let out = tone_map(&samples);
    for i in 0..samples.len() {
        for j in 0..samples.len() {
            if samples[i] <= samples[j] {
                assert!(out[i] <= out[j], "order broken at {} {}", i, j);
            }
            if samples[i] == samples[j] {
                assert_eq!(out[i], out[j]);
            }
        }
    }
}

#[test]
fn midpoint_takes_the_tabulated_curve_value() {
    // Levels 0, 127 and 255 of the log-stretch + gamma curve.
    let samples: Vec<i64> = vec![0, 1, 2];
    let out = tone_map(&samples);
    assert_eq!(out, vec![0, 222, 255]);
}

#[test]
fn first_level_is_far_above_zero() {
    // The logarithmic stretch boosts faint detail hard: one level above the
    // minimum already maps to 45 of 255.
    let samples: Vec<i64> = vec![0, 1, 255];
    let out = tone_map(&samples);
    assert_eq!(out[0], 0);
    assert_eq!(out[1], 45);
    assert_eq!(out[2], 255);
}

#[test]
fn single_sample_is_defined() {
    let out = tone_map(&vec![123456789]);
    assert_eq!(out, vec![0]);
}

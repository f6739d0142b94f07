use audionoise::math::{autoscale_symmetric, clip, normalize_to_peak, peak, windowed_peak};

#[test]
fn clip_below_range() {
    assert_eq!(clip(-7, -2, 4), -2);
}

#[test]
fn clip_above_range() {
    assert_eq!(clip(5, 0, 3), 3);
}

#[test]
fn clip_inside_range() {
    assert_eq!(clip(1, -2, 4), 1);
}

#[test]
fn autoscale_silence_floor() {
    // A silent extent is floored to a hundredth of full scale: +/- 0.01.
    assert_eq!(autoscale_symmetric(0, 0), (1, 100));
}

#[test]
fn autoscale_threshold() {
    // 2147 / 2^31 is still below 10^-6 of full scale; 2148 / 2^31 is not.
    assert_eq!(autoscale_symmetric(-2147, 2147), (1, 100));
    assert_eq!(autoscale_symmetric(-2148, 2148), (21 * 2148, 20 * 2147483648));
}

#[test]
fn autoscale_headroom() {
    // A full-scale extent is inflated by five percent: 21/20 of full scale.
    assert_eq!(
        autoscale_symmetric(-2147483648, 2147483647),
        (21 * 2147483648, 20 * 2147483648)
    );
}

#[test]
fn autoscale_sign_flip() {
    // The derived range only depends on the larger magnitude, so flipping
    // the sign of the extent (and swapping the pair) changes nothing.
    assert_eq!(
        autoscale_symmetric(-5000, 2_000_000),
        autoscale_symmetric(-2_000_000, 5000)
    );
    assert_eq!(
        autoscale_symmetric(0, 300_000_000),
        autoscale_symmetric(-300_000_000, 0)
    );
}

#[test]
fn peak_empty_is_zero() {
    assert_eq!(peak(&[]), 0);
}

#[test]
fn peak_takes_magnitudes() {
    assert_eq!(peak(&[-5, 3]), 5);
    assert_eq!(peak(&[2, -1, 4, -3]), 4);
}

#[test]
fn peak_of_most_negative_sample() {
    assert_eq!(peak(&[i32::MIN]), 2147483648);
}

#[test]
fn windowed_peak_chunks() {
    // Chunks of two, the last chunk shorter.
    assert_eq!(windowed_peak(&[1, -2, 3, -4, 5], 2), vec![2, 4, 5]);
}

#[test]
fn windowed_peak_zero_window() {
    assert_eq!(windowed_peak(&[1, 2, 3], 0), Vec::<u32>::new());
}

#[test]
fn windowed_peak_window_longer_than_input() {
    assert_eq!(windowed_peak(&[1, -9], 10), vec![9]);
}

#[test]
fn normalize_scales_to_target() {
    let mut samples = vec![1, -2, 4];
    let gain = normalize_to_peak(&mut samples, 8);
    assert_eq!(gain, Some((8, 4)));
    assert_eq!(samples, vec![2, -4, 8]);
}

#[test]
fn normalize_empty_is_noop() {
    let mut samples: Vec<i32> = Vec::new();
    assert_eq!(normalize_to_peak(&mut samples, 8), None);
    assert!(samples.is_empty());
}

#[test]
fn normalize_zero_target_is_noop() {
    let mut samples = vec![1, 2];
    assert_eq!(normalize_to_peak(&mut samples, 0), None);
    assert_eq!(samples, vec![1, 2]);
}

#[test]
fn normalize_silent_input_is_noop() {
    let mut samples = vec![0, 0, 0];
    assert_eq!(normalize_to_peak(&mut samples, 8), None);
    assert_eq!(samples, vec![0, 0, 0]);
}

#[test]
fn normalize_saturates() {
    let mut samples = vec![i32::MAX, 1];
    let gain = normalize_to_peak(&mut samples, 4294967295);
    assert_eq!(gain, Some((4294967295, 2147483647)));
    assert_eq!(samples[0], i32::MAX);
    assert_eq!(samples[1], 2);
}

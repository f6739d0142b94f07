use audionoise::waveform::{bucket_min_max_i32, range_min_max_i32, MinMax};

#[test]
fn full_scale_samples_one_per_bucket() {
    // One extreme sample per column: the buckets carry the exact fixed-point
    // extents, which normalize to -1.0, 0.0, and (just under) 1.0.
    let samples = [-2147483648, 0, 2147483647];
    let buckets = bucket_min_max_i32(&samples, 0, 3, 3);
    assert_eq!(
        buckets,
        vec![
            MinMax { min: -2147483648, max: -2147483648, has_data: true },
            MinMax { min: 0, max: 0, has_data: true },
            MinMax { min: 2147483647, max: 2147483647, has_data: true },
        ]
    );
    let scale = 1.0f32 / 2147483648.0;
    assert_eq!(buckets[0].min as f32 * scale, -1.0);
    assert_eq!(buckets[1].min as f32 * scale, 0.0);
    assert!((buckets[2].max as f32 * scale - 1.0).abs() < 1e-6);
}

#[test]
fn buckets_partition_range() {
    // Ten samples into three columns: slices [0..3), [3..6), [6..10).
    let samples = [0, 1, 2, 3, 4, 5, 6, 7, 8, 9];
    let buckets = bucket_min_max_i32(&samples, 0, 10, 3);
    assert_eq!(
        buckets,
        vec![
            MinMax { min: 0, max: 2, has_data: true },
            MinMax { min: 3, max: 5, has_data: true },
            MinMax { min: 6, max: 9, has_data: true },
        ]
    );
}

#[test]
fn zero_buckets_yield_empty_row() {
    let samples = [1, 2, 3];
    assert_eq!(bucket_min_max_i32(&samples, 0, 3, 0), Vec::<MinMax>::new());
}

#[test]
fn out_of_range_request_yields_blank_row() {
    let samples = [1, 2, 3];
    let buckets = bucket_min_max_i32(&samples, 5, 9, 4);
    assert_eq!(buckets.len(), 4);
    for b in &buckets {
        assert!(!b.has_data);
        assert_eq!((b.min, b.max), (0, 0));
    }
}

#[test]
fn more_buckets_than_samples_leaves_blank_columns() {
    // Two samples into four columns: empty, first, empty, second.
    let samples = [7, -8];
    let buckets = bucket_min_max_i32(&samples, 0, 2, 4);
    assert_eq!(
        buckets,
        vec![
            MinMax { min: 0, max: 0, has_data: false },
            MinMax { min: 7, max: 7, has_data: true },
            MinMax { min: 0, max: 0, has_data: false },
            MinMax { min: -8, max: -8, has_data: true },
        ]
    );
}

#[test]
fn end_is_clamped_to_input_length() {
    let samples = [4, -6, 2];
    let buckets = bucket_min_max_i32(&samples, 1, 100, 1);
    assert_eq!(buckets, vec![MinMax { min: -6, max: 2, has_data: true }]);
}

#[test]
fn range_reduces_whole_slice() {
    let samples = [3, -5, 8, 0];
    assert_eq!(range_min_max_i32(&samples, 0, 4), Some((-5, 8)));
}

#[test]
fn range_clamps_end() {
    let samples = [3, -5];
    assert_eq!(range_min_max_i32(&samples, 1, 100), Some((-5, -5)));
}

#[test]
fn range_empty_request_is_none() {
    let samples = [3, -5];
    assert_eq!(range_min_max_i32(&samples, 1, 1), None);
}

#[test]
fn range_beyond_end_is_none() {
    let samples = [3, -5];
    assert_eq!(range_min_max_i32(&samples, 2, 9), None);
    assert_eq!(range_min_max_i32(&samples, 7, 9), None);
}

use lineic::InterpolationBucket;
use lineic::ReversibleRange;

const RED: [u8; 3] = [255, 50, 50];
const GRN: [u8; 3] = [50, 255, 50];

#[test]
fn test_interpolation_bucket() {
    let bucket = InterpolationBucket::new_const((0i64, 10), RED, GRN);
    let back_bucket = InterpolationBucket::new_const((10i64, 0), GRN, RED);

    // Interpolate between RED and GRN at 60% of the range
    let interpolated = bucket.interpolate(6);
    assert_eq!(interpolated, [132, 173, 50]);
    assert_eq!(bucket.reverse_interpolate(&interpolated), Some(6));

    // Backwards interpolation should be the same as forwards interpolation
    let back_interpolated = back_bucket.interpolate(6);
    assert_eq!(back_interpolated, [132, 173, 50]);
    assert_eq!(back_bucket.reverse_interpolate(&back_interpolated), Some(6));
}

#[test]
fn test_bucket_endpoints() {
    // Interpolation at the endpoints yields the endpoint value sets exactly
    let bucket = InterpolationBucket::new(ReversibleRange::new(0i64, 10), RED, GRN);
    assert_eq!(bucket.interpolate(0), RED);
    assert_eq!(bucket.interpolate(10), GRN);

    let back_bucket = InterpolationBucket::new(ReversibleRange::new(10i64, 0), GRN, RED);
    assert_eq!(back_bucket.interpolate(10), GRN);
    assert_eq!(back_bucket.interpolate(0), RED);
}

#[test]
fn test_bucket_clamps_queries() {
    // Out-of-range queries behave as their clamped forms
    let bucket = InterpolationBucket::new(ReversibleRange::new(0i64, 10), RED, GRN);
    assert_eq!(bucket.interpolate(-100), bucket.interpolate(0));
    assert_eq!(bucket.interpolate(100), bucket.interpolate(10));
    assert_eq!(bucket.interpolate(i64::MIN), RED);
    assert_eq!(bucket.interpolate(i64::MAX), GRN);
}

#[test]
fn test_round_trip() {
    // Spans that are whole multiples of the range length round-trip exactly
    let bucket = InterpolationBucket::new(ReversibleRange::new(0i32, 4), [0u32], [8u32]);
    for q in 0..=4i32 {
        let values = bucket.interpolate(q);
        assert_eq!(values, [2 * q as u32]);
        assert_eq!(bucket.reverse_interpolate(&values), Some(q));
    }
}

#[test]
fn test_reverse_interpolate_rejects() {
    let bucket = InterpolationBucket::new(ReversibleRange::new(0i64, 10), RED, GRN);

    // out of bounds: first component above both endpoint values
    assert_eq!(bucket.reverse_interpolate(&[200, 50, 50]), None);

    // inconsistent: components disagree on the relative position
    assert_eq!(bucket.reverse_interpolate(&[132, 132, 50]), None);

    // flat bucket: no component carries positional information
    let flat = InterpolationBucket::new(ReversibleRange::new(0i64, 10), [7u8; 3], [7u8; 3]);
    assert_eq!(flat.reverse_interpolate(&[7, 7, 7]), None);
    assert_eq!(flat.reverse_interpolate(&[8, 8, 8]), None);
}

#[test]
fn test_zero_length_range() {
    // A zero-length range yields the low values for every query
    let bucket = InterpolationBucket::new(ReversibleRange::new(5i64, 5), [1u8, 2], [9u8, 9]);
    assert_eq!(bucket.interpolate(5), [1, 2]);
    assert_eq!(bucket.interpolate(0), [1, 2]);
    assert_eq!(bucket.interpolate(100), [1, 2]);
}

#[test]
fn test_bucket_getters() {
    let range = ReversibleRange::new(3i64, 11);
    let bucket = InterpolationBucket::new(range.clone(), RED, GRN);
    assert_eq!(bucket.start(), 3);
    assert_eq!(bucket.end(), 11);
    assert_eq!(bucket.range(), &range);
    assert_eq!(bucket.values_lo(), &RED);
    assert_eq!(bucket.values_hi(), &GRN);
}

#[test]
fn test_range_from_conversions() {
    let from_pair = ReversibleRange::from((7i64, 3));
    assert_eq!(from_pair.start, 7);
    assert_eq!(from_pair.end, 3);
    assert!(from_pair.is_reversed());

    let from_array = ReversibleRange::from([3i64, 7]);
    assert_eq!(from_array.start, 3);
    assert_eq!(from_array.end, 7);
    assert!(!from_array.is_reversed());
}

#[test]
fn test_range_queries() {
    let range = ReversibleRange::new(2i64, 8);
    assert!(range.contains(2) && range.contains(5) && range.contains(8));
    assert!(!range.contains(1) && !range.contains(9));
    assert!(!range.is_empty());
    assert!(!range.is_reversed());
    assert_eq!(range.len(), 6);

    let back = ReversibleRange::new(8i64, 2);
    assert!(back.contains(2) && back.contains(5) && back.contains(8));
    assert!(!back.contains(9));
    assert!(back.is_reversed());
    assert_eq!(back.len(), 6);

    let point = ReversibleRange::new(4u32, 4);
    assert!(point.is_empty());
    assert_eq!(point.len(), 0);
    assert!(point.contains(4) && !point.contains(5));
}

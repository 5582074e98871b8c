use lineic::InterpolationBucket;
use lineic::LinearInterpolator;
use lineic::ReversibleRange;

#[test]
fn test_new() {
    let interpolator = LinearInterpolator::new(
        ReversibleRange::new(0i64, 100),
        &[[0i64, 0], [1, 1], [2, 2]],
    );
    assert_eq!(interpolator.buckets().len(), 2);
    assert_eq!(
        interpolator.buckets()[0],
        InterpolationBucket::new(ReversibleRange::new(0, 50), [0, 0], [1, 1])
    );
    assert_eq!(
        interpolator.buckets()[1],
        InterpolationBucket::new(ReversibleRange::new(50, 100), [1, 1], [2, 2])
    );

    let interpolator = LinearInterpolator::new(
        ReversibleRange::new(100i64, 0),
        &[[0i64, 0], [1, 1], [2, 2], [3, 3]],
    );
    assert_eq!(interpolator.buckets().len(), 3);
    assert_eq!(
        interpolator.buckets()[0],
        InterpolationBucket::new(ReversibleRange::new(100, 67), [0, 0], [1, 1])
    );

    let empty: LinearInterpolator<0, i64, i64> =
        LinearInterpolator::new(ReversibleRange::new(0, 0), &[]);
    assert_eq!(empty.interpolate(0), []);
}

#[test]
fn test_get_bucket() {
    let interpolator = LinearInterpolator::new(
        ReversibleRange::new(0i64, 100),
        &[[0i64, 0], [1, 1], [2, 2]],
    );
    assert_eq!(
        interpolator.get_bucket(0),
        &InterpolationBucket::new(ReversibleRange::new(0, 50), [0, 0], [1, 1])
    );
    assert_eq!(
        interpolator.get_bucket(50),
        &InterpolationBucket::new(ReversibleRange::new(50, 100), [1, 1], [2, 2])
    );
    assert_eq!(
        interpolator.get_bucket(100),
        &InterpolationBucket::new(ReversibleRange::new(50, 100), [1, 1], [2, 2])
    );

    let interpolator = LinearInterpolator::new(
        ReversibleRange::new(100i64, 0),
        &[[0i64, 0], [1, 1], [2, 2], [3, 3]],
    );

    assert_eq!(
        interpolator.get_bucket(100),
        &InterpolationBucket::new(ReversibleRange::new(100, 67), [0, 0], [1, 1])
    );

    assert_eq!(
        interpolator.get_bucket(20),
        &InterpolationBucket::new(ReversibleRange::new(34, 0), [2, 2], [3, 3])
    );
}

#[test]
fn test_bucket_count_and_coverage() {
    // k value sets produce max(k - 1, 1) buckets tiling the range
    let sets: Vec<[u16; 1]> = vec![[0], [10], [20], [30], [40]];
    let interpolator = LinearInterpolator::new(ReversibleRange::new(0u32, 100), &sets);
    let buckets = interpolator.buckets();
    assert_eq!(buckets.len(), 4);
    assert_eq!(buckets[0].start(), 0);
    assert_eq!(buckets[3].end(), 100);
    for i in 0..buckets.len() - 1 {
        assert_eq!(buckets[i].end(), buckets[i + 1].start());
    }

    let one_set = LinearInterpolator::new(ReversibleRange::new(0u32, 100), &[[5u16]]);
    assert_eq!(one_set.buckets().len(), 1);
    assert_eq!(one_set.interpolate(0), [5]);
    assert_eq!(one_set.interpolate(77), [5]);

    let no_sets: LinearInterpolator<1, u32, u16> =
        LinearInterpolator::new(ReversibleRange::new(0, 100), &[]);
    assert_eq!(no_sets.buckets().len(), 1);
}

#[test]
fn test_try_new_too_many_sets() {
    // 258 value sets need a step count of 257, which does not fit in u8
    let sets: Vec<[u8; 1]> = vec![[0]; 258];
    let failed = LinearInterpolator::<1, u8, u8>::try_new(ReversibleRange::new(0, 200), &sets);
    assert!(failed.is_none());

    let fits: Vec<[u8; 1]> = vec![[0]; 256];
    let ok = LinearInterpolator::<1, u8, u8>::try_new(ReversibleRange::new(0, 200), &fits);
    assert!(ok.is_some());
}

#[test]
fn test_empty_value_sets() {
    // No value sets: every query interpolates to the all-zero vector
    let interpolator: LinearInterpolator<3, i64, u8> =
        LinearInterpolator::new(ReversibleRange::new(0, 10), &[]);
    assert_eq!(interpolator.interpolate(7), [0, 0, 0]);
    assert_eq!(interpolator.interpolate(-3), [0, 0, 0]);
    assert_eq!(interpolator.interpolate(10), [0, 0, 0]);
}

#[test]
fn test_interpolator_reverse() {
    let interpolator = LinearInterpolator::new(
        ReversibleRange::new(0i64, 100),
        &[[0u8], [50], [100]],
    );
    assert_eq!(interpolator.interpolate(70), [70]);
    assert_eq!(interpolator.reverse_interpolate(&[70]), Some(70));
    assert_eq!(interpolator.reverse_interpolate(&[20]), Some(20));
    assert_eq!(interpolator.reverse_interpolate(&[100]), Some(100));
    assert_eq!(interpolator.reverse_interpolate(&[101]), None);
}

#[test]
fn test_reversed_interpolator() {
    // A reversed range works: a traffic light from green to red
    let interpolator = LinearInterpolator::new(
        ReversibleRange::new(10i64, 0),
        &[[0u8, 255, 0], [255, 255, 0], [255, 0, 0]],
    );
    assert!(interpolator.is_reversed());
    assert_eq!(interpolator.interpolate(10), [0, 255, 0]);
    assert_eq!(interpolator.interpolate(5), [255, 255, 0]);
    assert_eq!(interpolator.interpolate(0), [255, 0, 0]);
}

#[test]
fn test_new_from_raw() {
    let buckets = vec![
        InterpolationBucket::new_const((0u32, 50), [0u32, 0, 0], [1, 1, 1]),
        InterpolationBucket::new_const((50u32, 100), [1u32, 1, 1], [2, 2, 2]),
    ];
    let interpolator = LinearInterpolator::new_from_raw(buckets);
    assert_eq!(interpolator.buckets().len(), 2);
    assert!(!interpolator.is_reversed());
    assert_eq!(interpolator.get_bucket(10).start(), 0);
    assert_eq!(interpolator.get_bucket(60).start(), 50);
    assert_eq!(interpolator.interpolate(75), [1, 1, 1]);
}

#[test]
fn test_mixed_width_types() {
    // A wide range type driving narrow values
    let interpolator = LinearInterpolator::new(
        ReversibleRange::new(0i64, 1000000),
        &[[0u8, 255], [255, 0]],
    );
    assert_eq!(interpolator.interpolate(0), [0, 255]);
    assert_eq!(interpolator.interpolate(500000), [127, 128]);
    assert_eq!(interpolator.interpolate(1000000), [255, 0]);
}

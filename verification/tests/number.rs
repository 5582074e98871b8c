use lineic::Numeric;
use lineic::abs_diff;
use lineic::scale;

#[test]
fn test_abs() {
    // signed integers
    assert_eq!(Numeric::abs(-1i8), 1);
    assert_eq!(Numeric::abs(1i8), 1);

    // unsigned integers
    assert_eq!(Numeric::abs(1u8), 1);

    // wider widths
    assert_eq!(Numeric::abs(-9i64), 9);
    assert_eq!(Numeric::abs(7u64), 7);
}

#[test]
fn test_clamp() {
    // signed integers
    assert_eq!(Numeric::clamp(1i8, 0, 2), 1);
    assert_eq!(Numeric::clamp(1i8, -1, 2), 1);

    // unsigned integers
    assert_eq!(Numeric::clamp(1u8, 0, 2), 1);

    // bounds given in reverse order
    assert_eq!(Numeric::clamp(9u8, 6, 2), 6);
    assert_eq!(Numeric::clamp(0i32, 5, -5), 0);
    assert_eq!(Numeric::clamp(-9i32, 5, -5), -5);
}

#[test]
fn test_scale() {
    // signed integers, by the ratios two and one half
    assert_eq!(scale(1i8, 2, 1), Some(2));
    assert_eq!(scale(2i8, 1, 2), Some(1));

    // unsigned integers
    assert_eq!(scale(1u8, 2, 1), Some(2));
    assert_eq!(scale(2u8, 1, 2), Some(1));

    // the result must fit in the type
    assert_eq!(scale(255u8, 2, 1), None);
    assert_eq!(scale(128u8, 2, 1), None);
    assert_eq!(scale(127u8, 2, 1), Some(254));

    // rounding is toward zero
    assert_eq!(scale(205u8, 3, 5), Some(123));
    assert_eq!(scale(19u8, 1, 2), Some(9));
}

#[test]
fn test_abs_diff() {
    assert_eq!(abs_diff(3u8, 10u8), 7);
    assert_eq!(abs_diff(10u8, 3u8), 7);
    assert_eq!(abs_diff(-3i8, 4i8), 7);
    assert_eq!(abs_diff(5i64, 5i64), 0);

    // a distance too wide for the type degrades to zero
    assert_eq!(abs_diff(-100i8, 100i8), 0);
}

#[test]
fn test_checked_arithmetic() {
    assert_eq!(Numeric::checked_add(200u8, 100u8), None);
    assert_eq!(Numeric::checked_add(200u8, 55u8), Some(255));
    assert_eq!(Numeric::checked_sub(3u8, 5u8), None);
    assert_eq!(Numeric::checked_sub(3i8, 5i8), Some(-2));
    assert_eq!(Numeric::checked_mul(16i16, 16i16), Some(256));
    assert_eq!(Numeric::checked_mul(i32::MAX, 2i32), None);

    // division truncates toward zero and reports division by zero
    assert_eq!(Numeric::checked_div(7i32, 2i32), Some(3));
    assert_eq!(Numeric::checked_div(-7i32, 2i32), Some(-3));
    assert_eq!(Numeric::checked_div(7u32, 0u32), None);
    assert_eq!(Numeric::checked_div(i64::MIN, -1i64), None);
}

#[test]
fn test_conversions() {
    assert_eq!(<u8 as Numeric>::from_usize(255), Some(255));
    assert_eq!(<u8 as Numeric>::from_usize(256), None);
    assert_eq!(<i8 as Numeric>::from_usize(127), Some(127));
    assert_eq!(<i8 as Numeric>::from_usize(128), None);
    assert_eq!(<u64 as Numeric>::from_usize(17), Some(17));

    assert_eq!(Numeric::to_wide(200u8), 200u64);
    assert_eq!(<u8 as Numeric>::from_wide(255), Some(255));
    assert_eq!(<u8 as Numeric>::from_wide(256), None);
    assert_eq!(<i16 as Numeric>::from_wide(40000), None);
}

#[test]
fn test_constants() {
    assert_eq!(<u8 as Numeric>::max_value(), u8::MAX);
    assert_eq!(<i32 as Numeric>::max_value(), i32::MAX);
    assert_eq!(<u16 as Numeric>::zero(), 0);
    assert_eq!(<i64 as Numeric>::one(), 1);
    assert!(Numeric::lte(1u8, 2u8));
    assert!(!Numeric::lte(-1i8, -2i8));
}

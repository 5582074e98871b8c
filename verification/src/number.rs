//! The numeric capability abstraction.
//!
//! [`Numeric`] is the arithmetic contract a type must satisfy to act as a
//! range coordinate or as an interpolated component: a total order, known
//! bounds, checked (overflow-reporting) arithmetic, and conversions to and
//! from a 64-bit unsigned wide form used to carry exact cross-type ratios.
//!
//! All contracts are stated over [`Numeric::as_int`], the mathematical
//! value of a number.

use vstd::arithmetic::div_mod::lemma_div_is_ordered;
use vstd::arithmetic::mul::lemma_mul_upper_bound;
use vstd::math::abs;
use vstd::prelude::*;

verus! {

/// A numeric type that can be interpolated across.
///
/// Implemented here for the fixed-width integer types up to 64 bits.
/// Wider types would need a 256-bit intermediate for exact scaling, and
/// floating-point types have no exact integer value, so neither satisfies
/// this contract.
pub trait Numeric: Sized + Copy {
    /// The mathematical value of this number.
    spec fn as_int(self) -> int;

    /// The smallest representable value, as a mathematical integer.
    spec fn min_int() -> int;

    /// The largest representable value, as a mathematical integer.
    spec fn max_int() -> int;

    /// The representable window contains zero and one, and fits the
    /// 64-bit wide form used for exact ratio arithmetic.
    proof fn bounds()
        ensures
            Self::min_int() <= 0 < Self::max_int(),
            Self::max_int() <= u64::MAX as int,
    ;

    /// Two numbers with the same mathematical value are the same number.
    proof fn as_int_injective(a: Self, b: Self)
        requires
            a.as_int() == b.as_int(),
        ensures
            a == b,
    ;

    /// Every value lies inside the representable window.
    proof fn value_in_window(self)
        ensures
            Self::min_int() <= self.as_int() <= Self::max_int(),
    ;

    /// The maximum value for this type.
    fn max_value() -> (r: Self)
        ensures
            r.as_int() == Self::max_int(),
    ;

    /// The zero value for this type.
    fn zero() -> (r: Self)
        ensures
            r.as_int() == 0,
    ;

    /// The first whole value after zero for this type.
    fn one() -> (r: Self)
        ensures
            r.as_int() == 1,
    ;

    /// Total-order comparison: is this number at most `other`?
    fn lte(self, other: Self) -> (r: bool)
        ensures
            r <==> self.as_int() <= other.as_int(),
    ;

    /// The absolute value of this number.
    ///
    /// For signed types the minimum value has no representable absolute
    /// value, so it is excluded.
    fn abs(self) -> (r: Self)
        requires
            -Self::max_int() <= self.as_int(),
        ensures
            r.as_int() == abs(self.as_int()),
    ;

    /// Clamp this number between two bounds. Unlike `std::cmp::Ord::clamp`,
    /// the bounds may be given in either order: if `min > max` the effective
    /// bounds are `(max, min)`.
    fn clamp(self, min: Self, max: Self) -> (r: Self)
        ensures
            r.as_int() == clamp_val(self.as_int(), min.as_int(), max.as_int()),
    ;

    /// Add two numbers, reporting overflow instead of wrapping or panicking.
    fn checked_add(self, other: Self) -> (r: Option<Self>)
        ensures
            if Self::min_int() <= self.as_int() + other.as_int() <= Self::max_int() {
                r matches Some(v) && v.as_int() == self.as_int() + other.as_int()
            } else {
                r is None
            },
    ;

    /// Subtract `other` from this number, reporting overflow instead of
    /// wrapping or panicking.
    fn checked_sub(self, other: Self) -> (r: Option<Self>)
        ensures
            if Self::min_int() <= self.as_int() - other.as_int() <= Self::max_int() {
                r matches Some(v) && v.as_int() == self.as_int() - other.as_int()
            } else {
                r is None
            },
    ;

    /// Multiply two numbers, reporting overflow instead of wrapping or
    /// panicking.
    fn checked_mul(self, other: Self) -> (r: Option<Self>)
        ensures
            if Self::min_int() <= self.as_int() * other.as_int() <= Self::max_int() {
                r matches Some(v) && v.as_int() == self.as_int() * other.as_int()
            } else {
                r is None
            },
    ;

    /// Divide this number by `other` (truncating, as machine division
    /// does), reporting division by zero or overflow as `None`.
    fn checked_div(self, other: Self) -> (r: Option<Self>)
        ensures
            if other.as_int() == 0 {
                r is None
            } else if Self::min_int() <= div_trunc(self.as_int(), other.as_int())
                <= Self::max_int() {
                r matches Some(v) && v.as_int() == div_trunc(self.as_int(), other.as_int())
            } else {
                r is None
            },
    ;

    /// Convert a usize to this type, reporting values that do not fit.
    fn from_usize(value: usize) -> (r: Option<Self>)
        ensures
            if value as int <= Self::max_int() {
                r matches Some(v) && v.as_int() == value as int
            } else {
                r is None
            },
    ;

    /// Convert a non-negative value of this type to the 64-bit wide form.
    fn to_wide(self) -> (r: u64)
        requires
            self.as_int() >= 0,
        ensures
            r as int == self.as_int(),
    ;

    /// Convert a wide value back to this type, reporting values that do
    /// not fit.
    fn from_wide(value: u128) -> (r: Option<Self>)
        ensures
            if value as int <= Self::max_int() {
                r matches Some(v) && v.as_int() == value as int
            } else {
                r is None
            },
    ;
}

/// Clamping `v` to the bounds `a` and `b`, given in either order.
pub open spec fn clamp_val(v: int, a: int, b: int) -> int {
    let lo = if a <= b {
        a
    } else {
        b
    };
    let hi = if a <= b {
        b
    } else {
        a
    };
    if v < lo {
        lo
    } else if v > hi {
        hi
    } else {
        v
    }
}

/// The distance between `a` and `b`, or zero when that distance does not
/// fit below `max`. This is the saturating fallback [`abs_diff`] applies
/// when the true distance is unrepresentable.
pub open spec fn abs_diff_val(a: int, b: int, max: int) -> int {
    if abs(a - b) <= max {
        abs(a - b) as int
    } else {
        0
    }
}

/// Scaling `v` by the ratio `num / den`, rounded toward zero.
pub open spec fn scale_val(v: int, num: int, den: int) -> int
    recommends
        den > 0,
{
    v * num / den
}

/// Machine (truncating) division: rounds toward zero, unlike the
/// Euclidean division of specification arithmetic.
pub open spec fn div_trunc(a: int, b: int) -> int
    recommends
        b != 0,
{
    if a >= 0 && b > 0 {
        a / b
    } else if a >= 0 {
        -(a / -b)
    } else if b > 0 {
        -(-a / b)
    } else {
        -a / -b
    }
}

/// The distance between two numbers, always as a non-negative value.
///
/// When the distance does not fit in the type (possible for signed types
/// over a wide window) the result degrades to zero rather than failing.
pub fn abs_diff<T: Numeric>(a: T, b: T) -> (r: T)
    ensures
        r.as_int() == abs_diff_val(a.as_int(), b.as_int(), T::max_int()),
{
    proof {
        T::bounds();
    }
    if b.lte(a) {
        match a.checked_sub(b) {
            Some(v) => v,
            None => T::zero(),
        }
    } else {
        match b.checked_sub(a) {
            Some(v) => v,
            None => T::zero(),
        }
    }
}

/// Scale a non-negative number by the exact ratio `num / den`, rounding
/// toward zero. Reports `None` when the scaled result does not fit in
/// the type.
pub fn scale<T: Numeric>(v: T, num: u64, den: u64) -> (r: Option<T>)
    requires
        v.as_int() >= 0,
        den > 0,
    ensures
        if scale_val(v.as_int(), num as int, den as int) <= T::max_int() {
            r matches Some(t) && t.as_int() == scale_val(v.as_int(), num as int, den as int)
        } else {
            r is None
        },
{
    let wide: u128 = v.to_wide() as u128;
    proof {
        T::bounds();
        v.value_in_window();
        lemma_mul_upper_bound(wide as int, u64::MAX as int, num as int, u64::MAX as int);
    }
    let product: u128 = wide * (num as u128);
    let quotient: u128 = product / (den as u128);
    proof {
        lemma_div_is_ordered(0, product as int, den as int);
    }
    T::from_wide(quotient)
}

impl Numeric for u8 {
    open spec fn as_int(self) -> int {
        self as int
    }

    open spec fn min_int() -> int {
        0
    }

    open spec fn max_int() -> int {
        u8::MAX as int
    }

    proof fn bounds() {
    }

    proof fn as_int_injective(a: Self, b: Self) {
    }

    proof fn value_in_window(self) {
    }

    fn max_value() -> (r: Self) {
        u8::MAX
    }

    fn zero() -> (r: Self) {
        0
    }

    fn one() -> (r: Self) {
        1
    }

    fn lte(self, other: Self) -> (r: bool) {
        self <= other
    }

    fn abs(self) -> (r: Self) {
        self
    }

    fn clamp(self, min: Self, max: Self) -> (r: Self) {
        let lo = if min <= max {
            min
        } else {
            max
        };
        let hi = if min <= max {
            max
        } else {
            min
        };
        if self < lo {
            lo
        } else if self > hi {
            hi
        } else {
            self
        }
    }

    fn checked_add(self, other: Self) -> (r: Option<Self>) {
        u8::checked_add(self, other)
    }

    fn checked_sub(self, other: Self) -> (r: Option<Self>) {
        u8::checked_sub(self, other)
    }

    fn checked_mul(self, other: Self) -> (r: Option<Self>) {
        u8::checked_mul(self, other)
    }

    fn checked_div(self, other: Self) -> (r: Option<Self>) {
        u8::checked_div(self, other)
    }

    fn from_usize(value: usize) -> (r: Option<Self>) {
        if value <= u8::MAX as usize {
            Some(value as u8)
        } else {
            None
        }
    }

    fn to_wide(self) -> (r: u64) {
        self as u64
    }

    fn from_wide(value: u128) -> (r: Option<Self>) {
        if value <= u8::MAX as u128 {
            Some(value as u8)
        } else {
            None
        }
    }
}


impl Numeric for u16 {
    open spec fn as_int(self) -> int {
        self as int
    }

    open spec fn min_int() -> int {
        0
    }

    open spec fn max_int() -> int {
        u16::MAX as int
    }

    proof fn bounds() {
    }

    proof fn as_int_injective(a: Self, b: Self) {
    }

    proof fn value_in_window(self) {
    }

    fn max_value() -> (r: Self) {
        u16::MAX
    }

    fn zero() -> (r: Self) {
        0
    }

    fn one() -> (r: Self) {
        1
    }

    fn lte(self, other: Self) -> (r: bool) {
        self <= other
    }

    fn abs(self) -> (r: Self) {
        self
    }

    fn clamp(self, min: Self, max: Self) -> (r: Self) {
        let lo = if min <= max {
            min
        } else {
            max
        };
        let hi = if min <= max {
            max
        } else {
            min
        };
        if self < lo {
            lo
        } else if self > hi {
            hi
        } else {
            self
        }
    }

    fn checked_add(self, other: Self) -> (r: Option<Self>) {
        u16::checked_add(self, other)
    }

    fn checked_sub(self, other: Self) -> (r: Option<Self>) {
        u16::checked_sub(self, other)
    }

    fn checked_mul(self, other: Self) -> (r: Option<Self>) {
        u16::checked_mul(self, other)
    }

    fn checked_div(self, other: Self) -> (r: Option<Self>) {
        u16::checked_div(self, other)
    }

    fn from_usize(value: usize) -> (r: Option<Self>) {
        if value <= u16::MAX as usize {
            Some(value as u16)
        } else {
            None
        }
    }

    fn to_wide(self) -> (r: u64) {
        self as u64
    }

    fn from_wide(value: u128) -> (r: Option<Self>) {
        if value <= u16::MAX as u128 {
            Some(value as u16)
        } else {
            None
        }
    }
}

impl Numeric for u32 {
    open spec fn as_int(self) -> int {
        self as int
    }

    open spec fn min_int() -> int {
        0
    }

    open spec fn max_int() -> int {
        u32::MAX as int
    }

    proof fn bounds() {
    }

    proof fn as_int_injective(a: Self, b: Self) {
    }

    proof fn value_in_window(self) {
    }

    fn max_value() -> (r: Self) {
        u32::MAX
    }

    fn zero() -> (r: Self) {
        0
    }

    fn one() -> (r: Self) {
        1
    }

    fn lte(self, other: Self) -> (r: bool) {
        self <= other
    }

    fn abs(self) -> (r: Self) {
        self
    }

    fn clamp(self, min: Self, max: Self) -> (r: Self) {
        let lo = if min <= max {
            min
        } else {
            max
        };
        let hi = if min <= max {
            max
        } else {
            min
        };
        if self < lo {
            lo
        } else if self > hi {
            hi
        } else {
            self
        }
    }

    fn checked_add(self, other: Self) -> (r: Option<Self>) {
        u32::checked_add(self, other)
    }

    fn checked_sub(self, other: Self) -> (r: Option<Self>) {
        u32::checked_sub(self, other)
    }

    fn checked_mul(self, other: Self) -> (r: Option<Self>) {
        u32::checked_mul(self, other)
    }

    fn checked_div(self, other: Self) -> (r: Option<Self>) {
        u32::checked_div(self, other)
    }

    fn from_usize(value: usize) -> (r: Option<Self>) {
        if value <= u32::MAX as usize {
            Some(value as u32)
        } else {
            None
        }
    }

    fn to_wide(self) -> (r: u64) {
        self as u64
    }

    fn from_wide(value: u128) -> (r: Option<Self>) {
        if value <= u32::MAX as u128 {
            Some(value as u32)
        } else {
            None
        }
    }
}

impl Numeric for u64 {
    open spec fn as_int(self) -> int {
        self as int
    }

    open spec fn min_int() -> int {
        0
    }

    open spec fn max_int() -> int {
        u64::MAX as int
    }

    proof fn bounds() {
    }

    proof fn as_int_injective(a: Self, b: Self) {
    }

    proof fn value_in_window(self) {
    }

    fn max_value() -> (r: Self) {
        u64::MAX
    }

    fn zero() -> (r: Self) {
        0
    }

    fn one() -> (r: Self) {
        1
    }

    fn lte(self, other: Self) -> (r: bool) {
        self <= other
    }

    fn abs(self) -> (r: Self) {
        self
    }

    fn clamp(self, min: Self, max: Self) -> (r: Self) {
        let lo = if min <= max {
            min
        } else {
            max
        };
        let hi = if min <= max {
            max
        } else {
            min
        };
        if self < lo {
            lo
        } else if self > hi {
            hi
        } else {
            self
        }
    }

    fn checked_add(self, other: Self) -> (r: Option<Self>) {
        u64::checked_add(self, other)
    }

    fn checked_sub(self, other: Self) -> (r: Option<Self>) {
        u64::checked_sub(self, other)
    }

    fn checked_mul(self, other: Self) -> (r: Option<Self>) {
        u64::checked_mul(self, other)
    }

    fn checked_div(self, other: Self) -> (r: Option<Self>) {
        u64::checked_div(self, other)
    }

    fn from_usize(value: usize) -> (r: Option<Self>) {
        Some(value as u64)
    }

    fn to_wide(self) -> (r: u64) {
        self as u64
    }

    fn from_wide(value: u128) -> (r: Option<Self>) {
        if value <= u64::MAX as u128 {
            Some(value as u64)
        } else {
            None
        }
    }
}

impl Numeric for usize {
    open spec fn as_int(self) -> int {
        self as int
    }

    open spec fn min_int() -> int {
        0
    }

    open spec fn max_int() -> int {
        usize::MAX as int
    }

    proof fn bounds() {
    }

    proof fn as_int_injective(a: Self, b: Self) {
    }

    proof fn value_in_window(self) {
    }

    fn max_value() -> (r: Self) {
        usize::MAX
    }

    fn zero() -> (r: Self) {
        0
    }

    fn one() -> (r: Self) {
        1
    }

    fn lte(self, other: Self) -> (r: bool) {
        self <= other
    }

    fn abs(self) -> (r: Self) {
        self
    }

    fn clamp(self, min: Self, max: Self) -> (r: Self) {
        let lo = if min <= max {
            min
        } else {
            max
        };
        let hi = if min <= max {
            max
        } else {
            min
        };
        if self < lo {
            lo
        } else if self > hi {
            hi
        } else {
            self
        }
    }

    fn checked_add(self, other: Self) -> (r: Option<Self>) {
        usize::checked_add(self, other)
    }

    fn checked_sub(self, other: Self) -> (r: Option<Self>) {
        usize::checked_sub(self, other)
    }

    fn checked_mul(self, other: Self) -> (r: Option<Self>) {
        usize::checked_mul(self, other)
    }

    fn checked_div(self, other: Self) -> (r: Option<Self>) {
        usize::checked_div(self, other)
    }

    fn from_usize(value: usize) -> (r: Option<Self>) {
        Some(value)
    }

    fn to_wide(self) -> (r: u64) {
        self as u64
    }

    fn from_wide(value: u128) -> (r: Option<Self>) {
        if value <= usize::MAX as u128 {
            Some(value as usize)
        } else {
            None
        }
    }
}

impl Numeric for i8 {
    open spec fn as_int(self) -> int {
        self as int
    }

    open spec fn min_int() -> int {
        i8::MIN as int
    }

    open spec fn max_int() -> int {
        i8::MAX as int
    }

    proof fn bounds() {
    }

    proof fn as_int_injective(a: Self, b: Self) {
    }

    proof fn value_in_window(self) {
    }

    fn max_value() -> (r: Self) {
        i8::MAX
    }

    fn zero() -> (r: Self) {
        0
    }

    fn one() -> (r: Self) {
        1
    }

    fn lte(self, other: Self) -> (r: bool) {
        self <= other
    }

    fn abs(self) -> (r: Self) {
        if self < 0 {
            -self
        } else {
            self
        }
    }

    fn clamp(self, min: Self, max: Self) -> (r: Self) {
        let lo = if min <= max {
            min
        } else {
            max
        };
        let hi = if min <= max {
            max
        } else {
            min
        };
        if self < lo {
            lo
        } else if self > hi {
            hi
        } else {
            self
        }
    }

    fn checked_add(self, other: Self) -> (r: Option<Self>) {
        i8::checked_add(self, other)
    }

    fn checked_sub(self, other: Self) -> (r: Option<Self>) {
        i8::checked_sub(self, other)
    }

    fn checked_mul(self, other: Self) -> (r: Option<Self>) {
        i8::checked_mul(self, other)
    }

    fn checked_div(self, other: Self) -> (r: Option<Self>) {
        i8::checked_div(self, other)
    }

    fn from_usize(value: usize) -> (r: Option<Self>) {
        if value <= i8::MAX as usize {
            Some(value as i8)
        } else {
            None
        }
    }

    fn to_wide(self) -> (r: u64) {
        self as u64
    }

    fn from_wide(value: u128) -> (r: Option<Self>) {
        if value <= i8::MAX as u128 {
            Some(value as i8)
        } else {
            None
        }
    }
}

impl Numeric for i16 {
    open spec fn as_int(self) -> int {
        self as int
    }

    open spec fn min_int() -> int {
        i16::MIN as int
    }

    open spec fn max_int() -> int {
        i16::MAX as int
    }

    proof fn bounds() {
    }

    proof fn as_int_injective(a: Self, b: Self) {
    }

    proof fn value_in_window(self) {
    }

    fn max_value() -> (r: Self) {
        i16::MAX
    }

    fn zero() -> (r: Self) {
        0
    }

    fn one() -> (r: Self) {
        1
    }

    fn lte(self, other: Self) -> (r: bool) {
        self <= other
    }

    fn abs(self) -> (r: Self) {
        if self < 0 {
            -self
        } else {
            self
        }
    }

    fn clamp(self, min: Self, max: Self) -> (r: Self) {
        let lo = if min <= max {
            min
        } else {
            max
        };
        let hi = if min <= max {
            max
        } else {
            min
        };
        if self < lo {
            lo
        } else if self > hi {
            hi
        } else {
            self
        }
    }

    fn checked_add(self, other: Self) -> (r: Option<Self>) {
        i16::checked_add(self, other)
    }

    fn checked_sub(self, other: Self) -> (r: Option<Self>) {
        i16::checked_sub(self, other)
    }

    fn checked_mul(self, other: Self) -> (r: Option<Self>) {
        i16::checked_mul(self, other)
    }

    fn checked_div(self, other: Self) -> (r: Option<Self>) {
        i16::checked_div(self, other)
    }

    fn from_usize(value: usize) -> (r: Option<Self>) {
        if value <= i16::MAX as usize {
            Some(value as i16)
        } else {
            None
        }
    }

    fn to_wide(self) -> (r: u64) {
        self as u64
    }

    fn from_wide(value: u128) -> (r: Option<Self>) {
        if value <= i16::MAX as u128 {
            Some(value as i16)
        } else {
            None
        }
    }
}

impl Numeric for i32 {
    open spec fn as_int(self) -> int {
        self as int
    }

    open spec fn min_int() -> int {
        i32::MIN as int
    }

    open spec fn max_int() -> int {
        i32::MAX as int
    }

    proof fn bounds() {
    }

    proof fn as_int_injective(a: Self, b: Self) {
    }

    proof fn value_in_window(self) {
    }

    fn max_value() -> (r: Self) {
        i32::MAX
    }

    fn zero() -> (r: Self) {
        0
    }

    fn one() -> (r: Self) {
        1
    }

    fn lte(self, other: Self) -> (r: bool) {
        self <= other
    }

    fn abs(self) -> (r: Self) {
        if self < 0 {
            -self
        } else {
            self
        }
    }

    fn clamp(self, min: Self, max: Self) -> (r: Self) {
        let lo = if min <= max {
            min
        } else {
            max
        };
        let hi = if min <= max {
            max
        } else {
            min
        };
        if self < lo {
            lo
        } else if self > hi {
            hi
        } else {
            self
        }
    }

    fn checked_add(self, other: Self) -> (r: Option<Self>) {
        i32::checked_add(self, other)
    }

    fn checked_sub(self, other: Self) -> (r: Option<Self>) {
        i32::checked_sub(self, other)
    }

    fn checked_mul(self, other: Self) -> (r: Option<Self>) {
        i32::checked_mul(self, other)
    }

    fn checked_div(self, other: Self) -> (r: Option<Self>) {
        i32::checked_div(self, other)
    }

    fn from_usize(value: usize) -> (r: Option<Self>) {
        if value <= i32::MAX as usize {
            Some(value as i32)
        } else {
            None
        }
    }

    fn to_wide(self) -> (r: u64) {
        self as u64
    }

    fn from_wide(value: u128) -> (r: Option<Self>) {
        if value <= i32::MAX as u128 {
            Some(value as i32)
        } else {
            None
        }
    }
}

impl Numeric for i64 {
    open spec fn as_int(self) -> int {
        self as int
    }

    open spec fn min_int() -> int {
        i64::MIN as int
    }

    open spec fn max_int() -> int {
        i64::MAX as int
    }

    proof fn bounds() {
    }

    proof fn as_int_injective(a: Self, b: Self) {
    }

    proof fn value_in_window(self) {
    }

    fn max_value() -> (r: Self) {
        i64::MAX
    }

    fn zero() -> (r: Self) {
        0
    }

    fn one() -> (r: Self) {
        1
    }

    fn lte(self, other: Self) -> (r: bool) {
        self <= other
    }

    fn abs(self) -> (r: Self) {
        if self < 0 {
            -self
        } else {
            self
        }
    }

    fn clamp(self, min: Self, max: Self) -> (r: Self) {
        let lo = if min <= max {
            min
        } else {
            max
        };
        let hi = if min <= max {
            max
        } else {
            min
        };
        if self < lo {
            lo
        } else if self > hi {
            hi
        } else {
            self
        }
    }

    fn checked_add(self, other: Self) -> (r: Option<Self>) {
        i64::checked_add(self, other)
    }

    fn checked_sub(self, other: Self) -> (r: Option<Self>) {
        i64::checked_sub(self, other)
    }

    fn checked_mul(self, other: Self) -> (r: Option<Self>) {
        i64::checked_mul(self, other)
    }

    fn checked_div(self, other: Self) -> (r: Option<Self>) {
        i64::checked_div(self, other)
    }

    fn from_usize(value: usize) -> (r: Option<Self>) {
        if value as u64 <= i64::MAX as u64 {
            Some(value as i64)
        } else {
            None
        }
    }

    fn to_wide(self) -> (r: u64) {
        self as u64
    }

    fn from_wide(value: u128) -> (r: Option<Self>) {
        if value <= i64::MAX as u128 {
            Some(value as i64)
        } else {
            None
        }
    }
}

impl Numeric for isize {
    open spec fn as_int(self) -> int {
        self as int
    }

    open spec fn min_int() -> int {
        isize::MIN as int
    }

    open spec fn max_int() -> int {
        isize::MAX as int
    }

    proof fn bounds() {
    }

    proof fn as_int_injective(a: Self, b: Self) {
    }

    proof fn value_in_window(self) {
    }

    fn max_value() -> (r: Self) {
        isize::MAX
    }

    fn zero() -> (r: Self) {
        0
    }

    fn one() -> (r: Self) {
        1
    }

    fn lte(self, other: Self) -> (r: bool) {
        self <= other
    }

    fn abs(self) -> (r: Self) {
        if self < 0 {
            -self
        } else {
            self
        }
    }

    fn clamp(self, min: Self, max: Self) -> (r: Self) {
        let lo = if min <= max {
            min
        } else {
            max
        };
        let hi = if min <= max {
            max
        } else {
            min
        };
        if self < lo {
            lo
        } else if self > hi {
            hi
        } else {
            self
        }
    }

    fn checked_add(self, other: Self) -> (r: Option<Self>) {
        isize::checked_add(self, other)
    }

    fn checked_sub(self, other: Self) -> (r: Option<Self>) {
        isize::checked_sub(self, other)
    }

    fn checked_mul(self, other: Self) -> (r: Option<Self>) {
        isize::checked_mul(self, other)
    }

    fn checked_div(self, other: Self) -> (r: Option<Self>) {
        isize::checked_div(self, other)
    }

    fn from_usize(value: usize) -> (r: Option<Self>) {
        if value <= isize::MAX as usize {
            Some(value as isize)
        } else {
            None
        }
    }

    fn to_wide(self) -> (r: u64) {
        self as u64
    }

    fn from_wide(value: u128) -> (r: Option<Self>) {
        if value <= isize::MAX as u128 {
            Some(value as isize)
        } else {
            None
        }
    }
}

} // verus!

//! A flexible piecewise-linear interpolator.
//!
//! The library interpolates between value sets across a numeric range.
//! It supports N-dimensional values, mixed range/value types, and any
//! number of data sets. Ranges may run backwards (start > end), and
//! out-of-range queries are clamped to the range.
//!
//! Every arithmetic step is exact: relative positions are carried as
//! integer ratios, and every operation that could overflow is checked.
//! Each public operation carries a contract that pins its result down,
//! and the laws the interpolator obeys are stated as proof functions
//! next to the operations they speak about.
//!
//! For use with further numeric types, the [`Numeric`] trait can be
//! implemented; it is provided here for the fixed-width integer types
//! up to 64 bits.

mod bucket;
pub use bucket::InterpolationBucket;

mod interpolator;
pub use interpolator::LinearInterpolator;

mod number;
pub use number::Numeric;
pub use number::abs_diff;
pub use number::scale;

mod range;
pub use range::ReversibleRange;

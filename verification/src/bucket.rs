//! The atomic two-endpoint interpolation unit: a range plus a low/high
//! value pair, with forward and reverse interpolation.

use crate::number::Numeric;
use crate::number::abs_diff;
use crate::number::abs_diff_val;
use crate::number::clamp_val;
use crate::number::scale;
use crate::number::scale_val;
use crate::range::ReversibleRange;
use vstd::arithmetic::div_mod::lemma_div_is_ordered;
use vstd::arithmetic::div_mod::lemma_div_pos_is_pos;
use vstd::arithmetic::div_mod::lemma_fundamental_div_mod;
use vstd::arithmetic::div_mod::lemma_div_multiples_vanish;
use vstd::arithmetic::div_mod::lemma_div_of0;
use vstd::arithmetic::mul::lemma_mul_inequality;
use vstd::arithmetic::mul::lemma_mul_is_commutative;
use vstd::arithmetic::mul::lemma_mul_nonnegative;
use vstd::arithmetic::mul::lemma_mul_upper_bound;
use vstd::math::abs;
use vstd::math::max;
use vstd::math::min;
use vstd::prelude::*;

verus! {

/// Relative positions whose difference is at most one part in this many
/// are considered equal by reverse interpolation.
pub const TOLERANCE_DENOM: u64 = 1000000;

/// Whether the exact ratios `pn / pd` and `qn / qd` differ by at most one
/// part in [`TOLERANCE_DENOM`]. Both denominators must be positive for
/// this to express a comparison of ratios.
pub open spec fn within_tolerance(pn: int, pd: int, qn: int, qd: int) -> bool {
    abs(pn * qd - qn * pd) <= (pd * qd) / (TOLERANCE_DENOM as int)
}

/// A value set for interpolation: interpolates between two sets of values
/// based on a range.
///
/// For interpolating between more than two data sets, see
/// [`crate::LinearInterpolator`].
#[derive(Debug, PartialEq, Clone, Hash, Eq)]
pub struct InterpolationBucket<const N: usize, S: Numeric, T: Numeric> {
    range: ReversibleRange<S>,
    values_lo: [T; N],
    values_hi: [T; N],
}

impl<const N: usize, S: Numeric, T: Numeric> InterpolationBucket<N, S, T> {
    /// The spec-level view of the range.
    pub closed spec fn spec_range(self) -> ReversibleRange<S> {
        self.range
    }

    /// The spec-level view of the low value set.
    pub closed spec fn spec_values_lo(self) -> Seq<T> {
        self.values_lo@
    }

    /// The spec-level view of the high value set.
    pub closed spec fn spec_values_hi(self) -> Seq<T> {
        self.values_hi@
    }

    /// The mathematical value of the range's start.
    pub open spec fn start_int(self) -> int {
        self.spec_range().start.as_int()
    }

    /// The mathematical value of the range's end.
    pub open spec fn end_int(self) -> int {
        self.spec_range().end.as_int()
    }

    /// The length of the range, zero when unrepresentable in `S`.
    pub open spec fn len_int(self) -> int {
        self.spec_range().spec_len()
    }

    /// The mathematical value of component `i` of the low value set.
    pub open spec fn lo_int(self, i: int) -> int {
        self.spec_values_lo()[i].as_int()
    }

    /// The mathematical value of component `i` of the high value set.
    pub open spec fn hi_int(self, i: int) -> int {
        self.spec_values_hi()[i].as_int()
    }

    /// The span of component `i`: the distance from its low to its high
    /// value, zero when unrepresentable in `T`.
    pub open spec fn diff_int(self, i: int) -> int {
        abs_diff_val(self.lo_int(i), self.hi_int(i), T::max_int())
    }

    /// The numerator of the relative position of query `s` in the range:
    /// the distance of the clamped query from the range's start. The
    /// relative position itself is this over [`Self::len_int`].
    pub open spec fn rel_num(self, s: int) -> int {
        abs_diff_val(
            clamp_val(s, self.start_int(), self.end_int()),
            self.start_int(),
            S::max_int(),
        )
    }

    /// What interpolation at query `s` yields for component `i`: the
    /// component's span, scaled by the relative position of the clamped
    /// query, applied from the low value toward the high value. A bucket
    /// whose range has length zero yields its low values unchanged.
    pub open spec fn component_at(self, s: int, i: int) -> int {
        if self.len_int() == 0 {
            self.lo_int(i)
        } else {
            let adj = scale_val(self.diff_int(i), self.rel_num(s), self.len_int());
            if self.lo_int(i) > self.hi_int(i) {
                self.lo_int(i) - adj
            } else {
                self.lo_int(i) + adj
            }
        }
    }

    /// Create a new interpolation bucket.
    /// - `range` is the range of values that this bucket interpolates between.
    /// - `values_lo` is the set of values to interpolate from.
    /// - `values_hi` is the set of values to interpolate to.
    ///
    /// Queries below the range are clamped to `values_lo`, queries above
    /// it to `values_hi`.
    pub fn new(range: ReversibleRange<S>, values_lo: [T; N], values_hi: [T; N]) -> (r: Self)
        ensures
            r.spec_range() == range,
            r.spec_values_lo() == values_lo@,
            r.spec_values_hi() == values_hi@,
    {
        Self { range, values_lo, values_hi }
    }

    /// Create a new interpolation bucket from a pair of range endpoints.
    ///
    /// Behaves as [`Self::new`] with the range built from the pair.
    pub fn new_const(range: (S, S), values_lo: [T; N], values_hi: [T; N]) -> (r: Self)
        ensures
            r.spec_range() == (ReversibleRange { start: range.0, end: range.1 }),
            r.spec_values_lo() == values_lo@,
            r.spec_values_hi() == values_hi@,
    {
        let range = ReversibleRange::new(range.0, range.1);
        Self { range, values_lo, values_hi }
    }

    /// Get the range of values that this bucket interpolates between.
    pub fn range(&self) -> (r: &ReversibleRange<S>)
        ensures
            *r == self.spec_range(),
    {
        &self.range
    }

    /// Get the start value of the range.
    pub fn start(&self) -> (r: S)
        ensures
            r == self.spec_range().start,
    {
        self.range.start
    }

    /// Get the end value of the range.
    pub fn end(&self) -> (r: S)
        ensures
            r == self.spec_range().end,
    {
        self.range.end
    }

    /// Get the set of values to interpolate from.
    pub fn values_lo(&self) -> (r: &[T; N])
        ensures
            r@ == self.spec_values_lo(),
    {
        &self.values_lo
    }

    /// Get the set of values to interpolate to.
    pub fn values_hi(&self) -> (r: &[T; N])
        ensures
            r@ == self.spec_values_hi(),
    {
        &self.values_hi
    }

    /// Interpolate between the two value sets of this bucket at the given
    /// query value.
    ///
    /// The query is clamped into the range, its relative position is taken
    /// as an exact ratio of the range's length, and each component moves
    /// from its low value toward its high value by its span scaled by that
    /// ratio.
    pub fn interpolate(&self, s: S) -> (values: [T; N])
        ensures
            values@.len() == N,
            forall|i: int|
                0 <= i < N ==> #[trigger] values@[i].as_int() == self.component_at(s.as_int(), i),
    {
        let start = self.range.start;
        let end = self.range.end;
        let len = self.range.len();
        let zero = S::zero();
        if len.lte(zero) {
            // A zero-length (or unrepresentably long) range has no
            // interior positions: the low values are the answer.
            return self.values_lo;
        }
        let value = s.clamp(start, end);
        let rel_value = abs_diff(value, start);
        proof {
            S::bounds();
            start.value_in_window();
            end.value_in_window();
        }
        let num: u64 = rel_value.to_wide();
        let den: u64 = len.to_wide();

        let mut values = self.values_lo;
        let mut i: usize = 0;
        while i < N
            invariant
                0 <= i <= N,
                values@.len() == N,
                num as int == self.rel_num(s.as_int()),
                den as int == self.len_int(),
                0 < den,
                num <= den,
                forall|j: int|
                    0 <= j < i ==> #[trigger] values@[j].as_int() == self.component_at(
                        s.as_int(),
                        j,
                    ),
            decreases N - i,
        {
            let lo = self.values_lo[i];
            let hi = self.values_hi[i];
            let diff = abs_diff(lo, hi);
            proof {
                T::bounds();
                lo.value_in_window();
                hi.value_in_window();
                lemma_mul_nonnegative(diff.as_int(), num as int);
                lemma_mul_inequality(num as int, den as int, diff.as_int());
                lemma_div_is_ordered(0, diff.as_int() * num, den as int);
                lemma_div_is_ordered(diff.as_int() * num, diff.as_int() * den, den as int);
                lemma_div_of0(den as int);
                lemma_div_multiples_vanish(diff.as_int(), den as int);
            }
            let adj = match scale(diff, num, den) {
                Some(a) => a,
                None => T::max_value(),
            };
            values[i] = if lo.lte(hi) {
                match lo.checked_add(adj) {
                    Some(v) => v,
                    None => T::max_value(),
                }
            } else {
                match lo.checked_sub(adj) {
                    Some(v) => v,
                    None => T::zero(),
                }
            };
            i = i + 1;
        }
        values
    }

    /// The distance of target component `i` from the bucket's low value,
    /// zero when unrepresentable in `T`.
    pub open spec fn target_diff_int(self, vals: Seq<T>, i: int) -> int {
        abs_diff_val(self.lo_int(i), vals[i].as_int(), T::max_int())
    }

    /// Whether target component `i` lies between the bucket's low and high
    /// values for that component.
    pub open spec fn target_in_bounds(self, vals: Seq<T>, i: int) -> bool {
        vals[i].as_int() == clamp_val(vals[i].as_int(), self.lo_int(i), self.hi_int(i))
    }

    /// Whether target component `i` carries any positional information:
    /// a component whose span and target distance are both zero is flat
    /// and says nothing about the query.
    pub open spec fn informative(self, vals: Seq<T>, i: int) -> bool {
        !(self.diff_int(i) == 0 && self.target_diff_int(vals, i) == 0)
    }

    /// The numerator of the relative position reported by component `i`.
    pub open spec fn percent_num(self, vals: Seq<T>, i: int) -> int {
        min(self.diff_int(i), self.target_diff_int(vals, i))
    }

    /// The denominator of the relative position reported by component `i`.
    /// Positive whenever the component is informative.
    pub open spec fn percent_den(self, vals: Seq<T>, i: int) -> int {
        max(self.diff_int(i), self.target_diff_int(vals, i))
    }

    /// The first informative component at or after index `i`, or `N` when
    /// there is none.
    pub open spec fn first_informative_from(self, vals: Seq<T>, i: int) -> int
        decreases N - i,
    {
        if i >= N {
            N as int
        } else if self.informative(vals, i) {
            i
        } else {
            self.first_informative_from(vals, i + 1)
        }
    }

    /// The first informative component, or `N` when every component is flat.
    pub open spec fn first_informative(self, vals: Seq<T>) -> int {
        self.first_informative_from(vals, 0)
    }

    /// Whether reverse interpolation succeeds on the target `vals`: every
    /// component lies between its low and high values, at least one is
    /// informative, and every informative component reports the same
    /// relative position as the first one, within tolerance.
    pub open spec fn rev_accept(self, vals: Seq<T>) -> bool {
        let f = self.first_informative(vals);
        &&& forall|i: int| 0 <= i < N ==> self.target_in_bounds(vals, i)
        &&& f < N
        &&& forall|i: int|
            0 <= i < N && #[trigger] self.informative(vals, i) ==> within_tolerance(
                self.percent_num(vals, f),
                self.percent_den(vals, f),
                self.percent_num(vals, i),
                self.percent_den(vals, i),
            )
    }

    /// The query that reverse interpolation recovers from the target
    /// `vals`: the relative position reported by the first informative
    /// component, inverted when the range runs backwards, projected back
    /// onto the range from its lower endpoint.
    pub open spec fn rev_result_int(self, vals: Seq<T>) -> int {
        let f = self.first_informative(vals);
        let pn = self.percent_num(vals, f);
        let pd = self.percent_den(vals, f);
        let n = if self.start_int() > self.end_int() {
            pd - pn
        } else {
            pn
        };
        let base = if self.start_int() < self.end_int() {
            self.start_int()
        } else {
            self.end_int()
        };
        base + scale_val(self.len_int(), n, pd)
    }

    /// Skipping uninformative components does not change which component
    /// is found first.
    proof fn lemma_first_informative_skip(self, vals: Seq<T>, i: int, k: int)
        requires
            0 <= i <= k <= N,
            forall|j: int| i <= j < k ==> !self.informative(vals, j),
        ensures
            self.first_informative_from(vals, i) == self.first_informative_from(vals, k),
        decreases k - i,
    {
        if i < k {
            self.lemma_first_informative_skip(vals, i + 1, k);
        }
    }

    /// Law: interpolating at the range's start yields the low values,
    /// exactly, for every bucket.
    pub proof fn lemma_interpolate_at_start(self)
        ensures
            forall|i: int|
                0 <= i < N ==> #[trigger] self.component_at(self.start_int(), i) == self.lo_int(i),
    {
        assert forall|i: int|
            0 <= i < N implies #[trigger] self.component_at(self.start_int(), i) == self.lo_int(
            i,
        ) by {
            if self.len_int() != 0 {
                assert(self.rel_num(self.start_int()) == 0);
                assert(self.diff_int(i) * 0 == 0) by (nonlinear_arith);
                lemma_div_of0(self.len_int());
                assert(scale_val(self.diff_int(i), 0, self.len_int()) == 0);
            }
        }
    }

    /// Law: interpolating at the range's end yields the high values,
    /// exactly, provided the range's length and each component's span are
    /// representable (a range or span too wide for its type degrades to
    /// the low values instead).
    pub proof fn lemma_interpolate_at_end(self)
        requires
            self.len_int() != 0,
            forall|i: int|
                0 <= i < N ==> abs(#[trigger] self.lo_int(i) - self.hi_int(i)) <= T::max_int(),
        ensures
            forall|i: int|
                0 <= i < N ==> #[trigger] self.component_at(self.end_int(), i) == self.hi_int(i),
    {
        assert forall|i: int|
            0 <= i < N implies #[trigger] self.component_at(self.end_int(), i) == self.hi_int(
            i,
        ) by {
            assert(self.rel_num(self.end_int()) == self.len_int());
            let d = self.diff_int(i);
            assert(d == abs(self.lo_int(i) - self.hi_int(i)));
            lemma_mul_is_commutative(d, self.len_int());
            lemma_div_multiples_vanish(d, self.len_int());
            assert(scale_val(d, self.len_int(), self.len_int()) == d);
        }
    }

    /// Law: interpolation clamps its query first, so a query and its
    /// clamped form interpolate identically.
    pub proof fn lemma_interpolate_clamps(self, s: int)
        ensures
            forall|i: int|
                0 <= i < N ==> #[trigger] self.component_at(s, i) == self.component_at(
                    clamp_val(s, self.start_int(), self.end_int()),
                    i,
                ),
    {
        assert(clamp_val(
            clamp_val(s, self.start_int(), self.end_int()),
            self.start_int(),
            self.end_int(),
        ) == clamp_val(s, self.start_int(), self.end_int()));
    }

    /// Law: direction symmetry. A bucket and its mirror (endpoints
    /// swapped, value sets swapped) interpolate identically at every
    /// query, provided the range's length and each component's span are
    /// representable and each component's adjustment divides out exactly
    /// (an inexact division rounds toward the low value, whose side
    /// differs between the two buckets).
    pub proof fn lemma_mirror_symmetry(self, other: Self, s: int)
        requires
            self.len_int() != 0,
            other.spec_range().start == self.spec_range().end,
            other.spec_range().end == self.spec_range().start,
            other.spec_values_lo() == self.spec_values_hi(),
            other.spec_values_hi() == self.spec_values_lo(),
            forall|i: int|
                0 <= i < N ==> abs(#[trigger] self.lo_int(i) - self.hi_int(i)) <= T::max_int(),
            forall|i: int|
                0 <= i < N ==> (#[trigger] self.diff_int(i) * self.rel_num(s)) % self.len_int()
                    == 0,
        ensures
            forall|i: int|
                0 <= i < N ==> #[trigger] other.component_at(s, i) == self.component_at(s, i),
    {
        let ln = self.len_int();
        let n = self.rel_num(s);
        assert(other.len_int() == ln);
        assert(other.rel_num(s) == ln - n);
        assert forall|i: int|
            0 <= i < N implies #[trigger] other.component_at(s, i) == self.component_at(s, i) by {
            let d = self.diff_int(i);
            assert(other.diff_int(i) == d);
            let q = scale_val(d, n, ln);
            lemma_fundamental_div_mod(d * n, ln);
            assert(d * n == ln * q);
            assert(d * (ln - n) == ln * (d - q)) by (nonlinear_arith)
                requires
                    d * n == ln * q,
            ;
            lemma_div_multiples_vanish(d - q, ln);
            assert(scale_val(d, ln - n, ln) == d - q);
            assert(0 <= q) by {
                lemma_mul_nonnegative(d, n);
                lemma_div_pos_is_pos(d * n, ln);
            }
            assert(q <= d) by {
                lemma_mul_inequality(n, ln, d);
                lemma_mul_is_commutative(n, d);
                lemma_mul_is_commutative(ln, d);
                lemma_div_is_ordered(d * n, d * ln, ln);
                lemma_mul_is_commutative(d, ln);
                lemma_div_multiples_vanish(d, ln);
            }
        }
    }

    /// The first-informative scan lands on an informative component when
    /// one exists at or after `i`, and everything it skipped is flat.
    proof fn lemma_first_informative_props(self, vals: Seq<T>, i: int)
        requires
            0 <= i <= N,
        ensures
            i <= self.first_informative_from(vals, i) <= N,
            self.first_informative_from(vals, i) < N ==> self.informative(
                vals,
                self.first_informative_from(vals, i),
            ),
            forall|j: int|
                i <= j < self.first_informative_from(vals, i) ==> !self.informative(vals, j),
        decreases N - i,
    {
        if i < N && !self.informative(vals, i) {
            self.lemma_first_informative_props(vals, i + 1);
        }
    }

    /// Law: round trip. Reverse interpolation recovers a contained query
    /// from its own interpolation exactly, provided the range's length and
    /// each component's span are representable, each span is a whole
    /// multiple of the range's length (so no component rounds), and some
    /// component is not flat.
    pub proof fn lemma_reverse_round_trip(self, q: S, vals: Seq<T>)
        requires
            self.len_int() != 0,
            self.spec_range().spec_contains(q.as_int()),
            forall|i: int|
                0 <= i < N ==> abs(#[trigger] self.lo_int(i) - self.hi_int(i)) <= T::max_int(),
            forall|i: int| 0 <= i < N ==> #[trigger] self.diff_int(i) % self.len_int() == 0,
            exists|i: int| 0 <= i < N && #[trigger] self.diff_int(i) != 0,
            vals.len() == N,
            forall|i: int|
                0 <= i < N ==> #[trigger] vals[i].as_int() == self.component_at(q.as_int(), i),
        ensures
            self.rev_accept(vals),
            self.rev_result_int(vals) == q.as_int(),
    {
        let ln = self.len_int();
        let sq = q.as_int();
        S::bounds();
        assert(ln == abs(self.start_int() - self.end_int()));
        assert(clamp_val(sq, self.start_int(), self.end_int()) == sq);
        let n = self.rel_num(sq);
        assert(n == abs(sq - self.start_int()));
        assert(0 <= n <= ln);

        assert forall|i: int| 0 <= i < N implies {
            &&& #[trigger] self.target_in_bounds(vals, i)
            &&& self.target_diff_int(vals, i) == (self.diff_int(i) / ln) * n
            &&& (self.informative(vals, i) <==> self.diff_int(i) != 0)
            &&& self.percent_num(vals, i) == (self.diff_int(i) / ln) * n
            &&& self.percent_den(vals, i) == self.diff_int(i)
        } by {
            let d = self.diff_int(i);
            let kq = d / ln;
            lemma_div_pos_is_pos(d, ln);
            lemma_fundamental_div_mod(d, ln);
            assert(d == ln * kq);
            assert(d * n == (kq * n) * ln) by (nonlinear_arith)
                requires
                    d == ln * kq,
            ;
            lemma_mul_is_commutative(kq * n, ln);
            lemma_div_multiples_vanish(kq * n, ln);
            assert(scale_val(d, n, ln) == kq * n);
            lemma_mul_nonnegative(kq, n);
            lemma_mul_inequality(n, ln, kq);
            lemma_mul_is_commutative(n, kq);
            lemma_mul_is_commutative(ln, kq);
            assert(0 <= kq * n <= d);
            assert(vals[i].as_int() == self.component_at(sq, i));
        }

        self.lemma_first_informative_props(vals, 0);
        let f = self.first_informative(vals);
        let w = choose|i: int| 0 <= i < N && #[trigger] self.diff_int(i) != 0;
        assert(self.informative(vals, w));
        assert(f < N);

        let df = self.diff_int(f);
        let kf = df / ln;
        assert(df != 0);
        lemma_div_pos_is_pos(df, ln);
        lemma_fundamental_div_mod(df, ln);
        assert(df == ln * kf);
        assert(kf > 0) by (nonlinear_arith)
            requires
                df == ln * kf,
                df > 0,
                ln > 0,
                kf >= 0,
        ;

        assert forall|i: int|
            0 <= i < N && #[trigger] self.informative(vals, i) implies within_tolerance(
            self.percent_num(vals, f),
            self.percent_den(vals, f),
            self.percent_num(vals, i),
            self.percent_den(vals, i),
        ) by {
            assert(self.target_in_bounds(vals, f));
            assert(self.target_in_bounds(vals, i));
            let di = self.diff_int(i);
            let ki = di / ln;
            lemma_fundamental_div_mod(di, ln);
            assert(di == ln * ki);
            assert(self.percent_num(vals, f) == kf * n && self.percent_den(vals, f) == df);
            assert(self.percent_num(vals, i) == ki * n && self.percent_den(vals, i) == di);
            assert((kf * n) * (ln * ki) - (ki * n) * (ln * kf) == 0) by (nonlinear_arith);
            lemma_mul_nonnegative(df, di);
            lemma_div_pos_is_pos(df * di, TOLERANCE_DENOM as int);
        }
        assert(self.rev_accept(vals));

        let pn = self.percent_num(vals, f);
        let pd = self.percent_den(vals, f);
        assert(self.target_in_bounds(vals, f));
        assert(pn == kf * n && pd == df);
        if self.start_int() > self.end_int() {
            let nn = pd - pn;
            assert(ln * nn == (ln - n) * pd) by (nonlinear_arith)
                requires
                    nn == ln * kf - kf * n,
                    pd == ln * kf,
            ;
            lemma_div_multiples_vanish(ln - n, pd);
            lemma_mul_is_commutative(ln - n, pd);
            assert(scale_val(ln, nn, pd) == ln - n);
            assert(self.rev_result_int(vals) == self.end_int() + ln - n);
            assert(n == self.start_int() - sq);
        } else {
            assert(ln * pn == n * pd) by (nonlinear_arith)
                requires
                    pn == kf * n,
                    pd == ln * kf,
            ;
            lemma_div_multiples_vanish(n, pd);
            lemma_mul_is_commutative(n, pd);
            assert(scale_val(ln, pn, pd) == n);
            assert(self.rev_result_int(vals) == self.start_int() + n);
            assert(n == sq - self.start_int());
        }
    }

    /// Attempt to retrieve the query within the bucket's range that would
    /// produce the given set of values.
    ///
    /// Succeeds exactly when the values lie between the bucket's endpoint
    /// values and every informative component reports the same relative
    /// position, within one part in [`TOLERANCE_DENOM`]; a flat target on
    /// a flat bucket carries no positional information and fails.
    pub fn reverse_interpolate(&self, input: &[T; N]) -> (r: Option<S>)
        ensures
            r is Some <==> self.rev_accept(input@),
            r matches Some(v) ==> v.as_int() == self.rev_result_int(input@),
    {
        let start = self.range.start;
        let end = self.range.end;
        let len = abs_diff(end, start);
        proof {
            T::bounds();
        }

        let mut rel: Option<(u64, u64)> = None;
        let ghost mut fi: int = N as int;
        let mut i: usize = 0;
        while i < N
            invariant
                0 <= i <= N,
                forall|j: int| 0 <= j < i ==> self.target_in_bounds(input@, j),
                match rel {
                    None => forall|j: int| 0 <= j < i ==> !self.informative(input@, j),
                    Some(p) => {
                        &&& 0 <= fi < i
                        &&& self.informative(input@, fi)
                        &&& forall|j: int| 0 <= j < fi ==> !self.informative(input@, j)
                        &&& p.0 as int == self.percent_num(input@, fi)
                        &&& p.1 as int == self.percent_den(input@, fi)
                        &&& p.0 <= p.1
                        &&& 0 < p.1
                        &&& forall|j: int|
                            0 <= j < i && #[trigger] self.informative(input@, j)
                                ==> within_tolerance(
                                p.0 as int,
                                p.1 as int,
                                self.percent_num(input@, j),
                                self.percent_den(input@, j),
                            )
                    },
                },
            decreases N - i,
        {
            let lo = self.values_lo[i];
            let hi = self.values_hi[i];
            let v = input[i];
            let clamped = v.clamp(lo, hi);
            if !(v.lte(clamped) && clamped.lte(v)) {
                proof {
                    assert(!self.target_in_bounds(input@, i as int));
                }
                return None;
            }
            let diff = abs_diff(lo, hi);
            let diff2 = abs_diff(lo, v);
            proof {
                lo.value_in_window();
                hi.value_in_window();
                v.value_in_window();
            }
            let d1: u64 = diff.to_wide();
            let d2: u64 = diff2.to_wide();
            if d1 != 0 || d2 != 0 {
                let pnum = if d1 <= d2 {
                    d1
                } else {
                    d2
                };
                let pden = if d1 <= d2 {
                    d2
                } else {
                    d1
                };
                match rel {
                    None => {
                        rel = Some((pnum, pden));
                        proof {
                            fi = i as int;
                            lemma_mul_nonnegative(pden as int, pden as int);
                            lemma_div_pos_is_pos(pden as int * pden as int, TOLERANCE_DENOM as int);
                        }
                    },
                    Some(p) => {
                        let (rn, rd) = p;
                        proof {
                            lemma_mul_upper_bound(
                                rn as int,
                                u64::MAX as int,
                                pden as int,
                                u64::MAX as int,
                            );
                            lemma_mul_upper_bound(
                                pnum as int,
                                u64::MAX as int,
                                rd as int,
                                u64::MAX as int,
                            );
                            lemma_mul_upper_bound(
                                rd as int,
                                u64::MAX as int,
                                pden as int,
                                u64::MAX as int,
                            );
                            lemma_mul_nonnegative(rn as int, pden as int);
                            lemma_mul_nonnegative(pnum as int, rd as int);
                            lemma_mul_nonnegative(rd as int, pden as int);
                        }
                        let c1: u128 = (rn as u128) * (pden as u128);
                        let c2: u128 = (pnum as u128) * (rd as u128);
                        let dc: u128 = if c1 >= c2 {
                            c1 - c2
                        } else {
                            c2 - c1
                        };
                        let pp: u128 = (rd as u128) * (pden as u128);
                        if dc > pp / (TOLERANCE_DENOM as u128) {
                            proof {
                                assert(!within_tolerance(
                                    rn as int,
                                    rd as int,
                                    pnum as int,
                                    pden as int,
                                ));
                                assert(self.informative(input@, i as int));
                                assert(self.percent_num(input@, i as int) == pnum as int);
                                assert(self.percent_den(input@, i as int) == pden as int);
                                self.lemma_first_informative_skip(input@, 0, fi);
                                assert(self.first_informative(input@) == fi);
                                assert(!self.rev_accept(input@));
                            }
                            return None;
                        }
                    },
                }
            }
            i = i + 1;
        }

        let p = match rel {
            Some(p) => p,
            None => {
                proof {
                    self.lemma_first_informative_skip(input@, 0, N as int);
                }
                return None;
            },
        };
        let (rn, rd) = p;
        proof {
            self.lemma_first_informative_skip(input@, 0, fi);
            assert(self.first_informative(input@) == fi);
            assert(self.rev_accept(input@));
        }

        let reversed = !start.lte(end);
        let n: u64 = if reversed {
            rd - rn
        } else {
            rn
        };
        proof {
            S::bounds();
            start.value_in_window();
            end.value_in_window();
            assert(0 <= n <= rd);
            assert(0 <= len.as_int() <= S::max_int());
            lemma_mul_nonnegative(len.as_int(), n as int);
            lemma_mul_is_commutative(len.as_int(), n as int);
            lemma_mul_is_commutative(len.as_int(), rd as int);
            lemma_mul_inequality(n as int, rd as int, len.as_int());
            lemma_div_is_ordered(0, len.as_int() * n, rd as int);
            lemma_div_is_ordered(len.as_int() * n, len.as_int() * rd, rd as int);
            lemma_div_of0(rd as int);
            lemma_div_multiples_vanish(len.as_int(), rd as int);
        }
        let adj = match scale(len, n, rd) {
            Some(a) => a,
            None => {
                return None;
            },
        };
        let base = if !end.lte(start) {
            start
        } else {
            end
        };
        match base.checked_add(adj) {
            Some(v) => Some(v),
            None => None,
        }
    }
}

} // verus!

//! A piecewise-linear interpolator: a sequence of buckets covering a
//! contiguous range, with binary search to route a query to its bucket.

use crate::bucket::InterpolationBucket;
use crate::number::Numeric;
use crate::number::abs_diff;
use crate::number::div_trunc;
use crate::number::clamp_val;
use crate::number::scale_val;
use crate::range::ReversibleRange;
use vstd::arithmetic::div_mod::lemma_div_of0;
use vstd::arithmetic::div_mod::lemma_div_pos_is_pos;
use vstd::arithmetic::div_mod::lemma_fundamental_div_mod;
use vstd::arithmetic::div_mod::lemma_mod_division_less_than_divisor;
use vstd::arithmetic::mul::lemma_mul_inequality;
use vstd::arithmetic::mul::lemma_mul_is_commutative;
use vstd::arithmetic::mul::lemma_mul_nonnegative;
use vstd::prelude::*;

verus! {

/// A linear interpolator for a set of values: interpolates between a
/// series of discrete value sets based on a range.
///
/// The range is divided into one sub-range per adjacent pair of value
/// sets; each sub-range becomes an [`InterpolationBucket`]. Queries are
/// routed to their bucket by binary search.
///
/// # Generics
/// - `N`: the number of values in each set
/// - `S`: the numeric type of the range over which queries are made
/// - `T`: the numeric type of the values interpolated between
#[derive(Debug, PartialEq, Clone)]
pub struct LinearInterpolator<const N: usize, S: Numeric, T: Numeric> {
    buckets: Vec<InterpolationBucket<N, S, T>>,
}

impl<const N: usize, S: Numeric, T: Numeric> LinearInterpolator<N, S, T> {
    /// The spec-level view of the bucket sequence.
    pub closed spec fn spec_buckets(self) -> Seq<InterpolationBucket<N, S, T>> {
        self.buckets@
    }

    /// Well-formed: there is at least one bucket to route queries to.
    /// Every constructor establishes this.
    pub open spec fn wf(self) -> bool {
        self.spec_buckets().len() >= 1
    }

    /// Whether the interpolator runs backwards: its first bucket's range
    /// has start above end. An interpolator without buckets is not
    /// reversed.
    pub open spec fn spec_is_reversed(self) -> bool {
        self.spec_buckets().len() >= 1 && self.spec_buckets()[0].spec_range().spec_is_reversed()
    }

    /// The index the binary search settles on within the window
    /// `[lo, hi)`: the midpoint bucket when it contains `s`, otherwise
    /// the half of the window selected by comparing `s` with the midpoint
    /// bucket's start, direction-aware.
    pub open spec fn search_between(self, s: int, lo: int, hi: int) -> int
        decreases hi - lo,
    {
        if hi - lo <= 1 {
            lo
        } else {
            let mid = lo + (hi - lo) / 2;
            let b = self.spec_buckets()[mid];
            if b.spec_range().spec_contains(s) {
                mid
            } else if (!self.spec_is_reversed() && s >= b.start_int()) || (
            self.spec_is_reversed() && s <= b.start_int()) {
                self.search_between(s, mid, hi)
            } else {
                self.search_between(s, lo, mid)
            }
        }
    }

    /// The index of the bucket that [`Self::get_bucket`] returns for
    /// query `s`.
    pub open spec fn bucket_index_of(self, s: int) -> int {
        self.search_between(s, 0, self.spec_buckets().len() as int)
    }

    /// What interpolation at query `s` yields for component `i`: the
    /// owning bucket's interpolation at `s`.
    pub open spec fn spec_interpolate(self, s: int, i: int) -> int {
        self.spec_buckets()[self.bucket_index_of(s)].component_at(s, i)
    }

    /// The length of each sub-range when a range is divided for `k`
    /// value sets (`k >= 2`).
    pub open spec fn spec_step(range: ReversibleRange<S>, k: int) -> int {
        range.spec_len() / (k - 1)
    }

    /// The `j`-th sub-range boundary when a range is divided for `k`
    /// value sets: `j` steps from the range's start, in the range's
    /// direction.
    pub open spec fn spec_boundary(range: ReversibleRange<S>, k: int, j: int) -> int {
        if range.spec_is_reversed() {
            range.start.as_int() - j * Self::spec_step(range, k)
        } else {
            range.start.as_int() + j * Self::spec_step(range, k)
        }
    }

    /// Whether this interpolator is what construction from `range` and
    /// `sets` yields.
    ///
    /// Zero value sets give one all-zero bucket over the whole range; one
    /// value set gives one constant bucket; `k >= 2` value sets give
    /// `k - 1` buckets whose value pairs are the adjacent value sets, and
    /// whose sub-ranges tile the range without gaps: each bucket starts
    /// where the previous one ends, interior boundaries sit at whole
    /// multiples of the step, and the last bucket's end is forced exactly
    /// to the range's end.
    pub open spec fn built_from(
        self,
        range: ReversibleRange<S>,
        sets: Seq<[T; N]>,
    ) -> bool {
        let k = sets.len() as int;
        let buckets = self.spec_buckets();
        &&& self.wf()
        &&& buckets.len() == if k <= 1 {
            1int
        } else {
            k - 1
        }
        &&& k == 0 ==> {
            &&& buckets[0].spec_range() == range
            &&& forall|i: int|
                0 <= i < N ==> #[trigger] buckets[0].lo_int(i) == 0 && buckets[0].hi_int(i) == 0
        }
        &&& k == 1 ==> {
            &&& buckets[0].spec_range() == range
            &&& buckets[0].spec_values_lo() == sets[0]@
            &&& buckets[0].spec_values_hi() == sets[0]@
        }
        &&& k >= 2 ==> {
            &&& forall|j: int|
                0 <= j < k - 1 ==> #[trigger] buckets[j].spec_values_lo() == sets[j]@
                    && buckets[j].spec_values_hi() == sets[j + 1]@
            &&& buckets[0].spec_range().start == range.start
            &&& buckets[k - 2].spec_range().end == range.end
            &&& forall|j: int|
                0 <= j < k - 2 ==> #[trigger] buckets[j + 1].spec_range().start
                    == buckets[j].spec_range().end
            &&& forall|j: int|
                0 <= j < k - 1 ==> #[trigger] buckets[j].spec_range().start.as_int()
                    == Self::spec_boundary(range, k, j)
            &&& forall|j: int|
                0 <= j < k - 2 ==> #[trigger] buckets[j].spec_range().end.as_int()
                    == Self::spec_boundary(range, k, j + 1)
        }
    }

    /// The buckets tile without gaps: each bucket begins exactly where
    /// the previous one ends.
    pub open spec fn spec_contiguous(self) -> bool {
        forall|j: int|
            0 <= j < self.spec_buckets().len() - 1 ==> #[trigger] self.spec_buckets()[j + 1].spec_range().start
                == self.spec_buckets()[j].spec_range().end
    }

    /// The buckets all run in the interpolator's direction: none ascends
    /// in a descending interpolator or descends in an ascending one.
    pub open spec fn spec_uniform_direction(self) -> bool {
        forall|j: int|
            0 <= j < self.spec_buckets().len() ==> if self.spec_is_reversed() {
                #[trigger] self.spec_buckets()[j].start_int() >= self.spec_buckets()[j].end_int()
            } else {
                #[trigger] self.spec_buckets()[j].start_int() <= self.spec_buckets()[j].end_int()
            }
    }

    /// Law: construction establishes the interpolator's structural
    /// invariants. The buckets tile the whole range contiguously, and they
    /// run uniformly in the range's direction. For a descending range the
    /// step must be at least one unit (a descending range shorter than its
    /// bucket count degenerates into empty buckets followed by one that
    /// spans the rest, whose direction the first bucket cannot show).
    pub proof fn lemma_built_from_tiles(self, range: ReversibleRange<S>, sets: Seq<[T; N]>)
        requires
            self.built_from(range, sets),
            !range.spec_is_reversed() || sets.len() <= 1 || Self::spec_step(
                range,
                sets.len() as int,
            ) >= 1,
        ensures
            self.spec_contiguous(),
            self.spec_uniform_direction(),
            self.spec_buckets()[0].spec_range().start == range.start,
            self.spec_buckets()[self.spec_buckets().len() - 1].spec_range().end == range.end,
    {
        let k = sets.len() as int;
        let bs = self.spec_buckets();
        if k >= 2 {
            let stp = Self::spec_step(range, k);
            let ln = range.spec_len();
            S::bounds();
            lemma_div_pos_is_pos(ln, k - 1);
            lemma_fundamental_div_mod(ln, k - 1);
            lemma_mod_division_less_than_divisor(ln, k - 1);
            assert((k - 1) * stp <= ln);
            assert(bs[k - 2].spec_range().start.as_int() == Self::spec_boundary(range, k, k - 2));
            assert forall|j: int| 0 <= j < bs.len() implies if self.spec_is_reversed() {
                #[trigger] bs[j].start_int() >= bs[j].end_int()
            } else {
                #[trigger] bs[j].start_int() <= bs[j].end_int()
            } by {
                lemma_mul_nonnegative(j, stp);
                lemma_mul_inequality(j, j + 1, stp);
                lemma_mul_inequality(j + 1, k - 1, stp);
                assert((j + 1) * stp == j * stp + stp) by (nonlinear_arith);
                if j < k - 2 {
                    assert(bs[j].spec_range().end.as_int() == Self::spec_boundary(
                        range,
                        k,
                        j + 1,
                    ));
                }
                if 0 < k - 2 {
                    assert(bs[0].spec_range().end.as_int() == Self::spec_boundary(range, k, 1));
                    assert(1 * stp == stp) by (nonlinear_arith);
                }
                assert(0 * stp == 0) by (nonlinear_arith);
            }
        }
    }

    /// Under the structural invariants, bucket endpoints are ordered along
    /// the interpolator's direction.
    proof fn lemma_endpoints_ordered(self, a: int, b: int)
        requires
            self.wf(),
            self.spec_contiguous(),
            self.spec_uniform_direction(),
            0 <= a <= b < self.spec_buckets().len(),
        ensures
            !self.spec_is_reversed() ==> self.spec_buckets()[a].start_int()
                <= self.spec_buckets()[b].start_int() && self.spec_buckets()[a].end_int()
                <= self.spec_buckets()[b].end_int() && self.spec_buckets()[a].start_int()
                <= self.spec_buckets()[b].end_int(),
            self.spec_is_reversed() ==> self.spec_buckets()[a].start_int()
                >= self.spec_buckets()[b].start_int() && self.spec_buckets()[a].end_int()
                >= self.spec_buckets()[b].end_int() && self.spec_buckets()[a].start_int()
                >= self.spec_buckets()[b].end_int(),
        decreases b - a,
    {
        if a < b {
            self.lemma_endpoints_ordered(a, b - 1);
            let jm = b - 1;
            assert(self.spec_buckets()[jm + 1].spec_range().start == self.spec_buckets()[
                jm].spec_range().end);
        }
    }

    /// The binary search, started on any window whose endpoints bracket
    /// the clamped query, settles on a bucket that contains it.
    proof fn lemma_search_brackets(self, s: int, lo: int, hi: int, c: int)
        requires
            self.wf(),
            self.spec_contiguous(),
            self.spec_uniform_direction(),
            0 <= lo < hi <= self.spec_buckets().len(),
            c == clamp_val(
                s,
                self.spec_buckets()[0].start_int(),
                self.spec_buckets()[self.spec_buckets().len() - 1].end_int(),
            ),
            !self.spec_is_reversed() ==> self.spec_buckets()[lo].start_int() <= c
                <= self.spec_buckets()[hi - 1].end_int(),
            self.spec_is_reversed() ==> self.spec_buckets()[lo].start_int() >= c
                >= self.spec_buckets()[hi - 1].end_int(),
        ensures
            lo <= self.search_between(s, lo, hi) < hi,
            self.spec_buckets()[self.search_between(s, lo, hi)].spec_range().spec_contains(c),
        decreases hi - lo,
    {
        let bs = self.spec_buckets();
        let last = bs.len() - 1;
        if hi - lo > 1 {
            let mid = lo + (hi - lo) / 2;
            self.lemma_endpoints_ordered(0, mid);
            self.lemma_endpoints_ordered(mid, last);
            self.lemma_endpoints_ordered(lo, mid);
            self.lemma_endpoints_ordered(mid, hi - 1);
            if bs[mid].spec_range().spec_contains(s) {
                assert(c == s);
            } else if (!self.spec_is_reversed() && s >= bs[mid].start_int()) || (
            self.spec_is_reversed() && s <= bs[mid].start_int()) {
                self.lemma_search_brackets(s, mid, hi, c);
            } else {
                let jm = mid - 1;
                assert(bs[jm + 1].spec_range().start == bs[jm].spec_range().end);
                self.lemma_endpoints_ordered(lo, mid - 1);
                self.lemma_search_brackets(s, lo, mid, c);
            }
        }
    }

    /// Law: under the structural invariants that construction establishes,
    /// the bucket that the binary search returns contains the query,
    /// clamped into the interpolator's overall range.
    pub proof fn lemma_get_bucket_contains(self, s: int)
        requires
            self.wf(),
            self.spec_contiguous(),
            self.spec_uniform_direction(),
        ensures
            0 <= self.bucket_index_of(s) < self.spec_buckets().len(),
            self.spec_buckets()[self.bucket_index_of(s)].spec_range().spec_contains(
                clamp_val(
                    s,
                    self.spec_buckets()[0].start_int(),
                    self.spec_buckets()[self.spec_buckets().len() - 1].end_int(),
                ),
            ),
    {
        let bs = self.spec_buckets();
        let last = bs.len() - 1;
        let c = clamp_val(s, bs[0].start_int(), bs[last].end_int());
        self.lemma_endpoints_ordered(0, last);
        self.lemma_search_brackets(s, 0, bs.len() as int, c);
    }

    /// Law: an interpolator built from no value sets interpolates to the
    /// all-zero vector, whatever the query.
    pub proof fn lemma_empty_value_sets(self, range: ReversibleRange<S>, s: int)
        requires
            self.built_from(range, Seq::<[T; N]>::empty()),
        ensures
            forall|i: int| 0 <= i < N ==> #[trigger] self.spec_interpolate(s, i) == 0,
    {
        let b = self.spec_buckets()[0];
        assert(self.bucket_index_of(s) == 0);
        assert forall|i: int| 0 <= i < N implies #[trigger] self.spec_interpolate(s, i) == 0 by {
            T::bounds();
            assert(b.lo_int(i) == 0 && b.hi_int(i) == 0);
            if b.len_int() != 0 {
                assert(b.diff_int(i) == 0);
                assert(0 * b.rel_num(s) == 0) by (nonlinear_arith);
                lemma_div_of0(b.len_int());
                assert(scale_val(b.diff_int(i), b.rel_num(s), b.len_int()) == 0);
            }
        }
    }

    /// Create a new linear interpolator with the given range and value
    /// sets. The range is divided into equal sub-ranges, one per adjacent
    /// pair of value sets.
    ///
    /// The number of value sets, less one, must be representable in `S`;
    /// [`Self::try_new`] reports that case instead of excluding it.
    pub fn new(range: ReversibleRange<S>, value_sets: &[[T; N]]) -> (r: Self)
        requires
            value_sets@.len() <= 1 || value_sets@.len() - 1 <= S::max_int(),
        ensures
            r.built_from(range, value_sets@),
    {
        match Self::try_new(range, value_sets) {
            Some(r) => r,
            None => vstd::pervasive::unreached(),
        }
    }

    /// Create a new linear interpolator with the given range and value
    /// sets. The range is divided into equal sub-ranges, one per adjacent
    /// pair of value sets.
    ///
    /// Returns `None` exactly when the number of value sets, less one, is
    /// too large to be represented in `S`. This is the non-panicking
    /// variant of [`Self::new`].
    #[verifier::rlimit(50)]
    pub fn try_new(range: ReversibleRange<S>, value_sets: &[[T; N]]) -> (r: Option<Self>)
        ensures
            r is Some <==> (value_sets@.len() <= 1 || value_sets@.len() - 1 <= S::max_int()),
            r matches Some(il) ==> il.built_from(range, value_sets@),
    {
        let ghost k = value_sets@.len() as int;
        if value_sets.len() == 0 {
            let values = [T::zero(); N];
            let mut buckets: Vec<InterpolationBucket<N, S, T>> = Vec::new();
            buckets.push(InterpolationBucket::new(range, values, values));
            return Some(Self { buckets });
        }

        let capacity = value_sets.len() - 1;

        if capacity == 0 {
            let values = value_sets[0];
            let mut buckets: Vec<InterpolationBucket<N, S, T>> = Vec::new();
            buckets.push(InterpolationBucket::new(range, values, values));
            return Some(Self { buckets });
        }

        let len = abs_diff(range.start, range.end);
        proof {
            S::bounds();
            range.start.value_in_window();
            range.end.value_in_window();
        }
        let divisor = match S::from_usize(capacity) {
            Some(d) => d,
            None => {
                return None;
            },
        };
        let step_by = match len.checked_div(divisor) {
            Some(v) => v,
            None => vstd::pervasive::unreached(),
        };
        let ghost stp = Self::spec_step(range, k);
        proof {
            assert(step_by.as_int() == div_trunc(len.as_int(), capacity as int));
            assert(step_by.as_int() == stp);
            lemma_fundamental_div_mod(len.as_int(), capacity as int);
            lemma_mod_division_less_than_divisor(len.as_int(), capacity as int);
            lemma_div_pos_is_pos(len.as_int(), capacity as int);
            lemma_mul_nonnegative(capacity as int, stp);
            assert(0 <= capacity as int * stp <= len.as_int());
            lemma_mul_is_commutative(capacity as int, stp);
        }

        let range_reversed = range.is_reversed();
        let mut start = range.start;
        let mut buckets: Vec<InterpolationBucket<N, S, T>> = Vec::new();
        let mut i: usize = 0;
        while i < capacity
            invariant
                2 <= k,
                k == value_sets@.len(),
                capacity == k - 1,
                capacity as int <= S::max_int(),
                0 <= i <= capacity,
                buckets@.len() == i as int,
                S::min_int() <= 0 < S::max_int(),
                S::min_int() <= range.start.as_int() <= S::max_int(),
                S::min_int() <= range.end.as_int() <= S::max_int(),
                range_reversed == range.spec_is_reversed(),
                stp == Self::spec_step(range, k),
                0 <= stp,
                capacity as int * stp <= range.spec_len(),
                step_by.as_int() == stp,
                i < capacity ==> start.as_int() == Self::spec_boundary(range, k, i as int),
                i == 0 ==> start == range.start,
                i >= 1 ==> start == buckets@[i - 1].spec_range().end,
                forall|j: int|
                    0 <= j < i as int ==> #[trigger] buckets@[j].spec_values_lo()
                        == value_sets@[j]@ && buckets@[j].spec_values_hi() == value_sets@[j + 1]@,
                i >= 1 ==> buckets@[0].spec_range().start == range.start,
                forall|j: int|
                    0 <= j < i as int - 1 ==> #[trigger] buckets@[j + 1].spec_range().start
                        == buckets@[j].spec_range().end,
                forall|j: int|
                    0 <= j < i as int ==> #[trigger] buckets@[j].spec_range().start.as_int()
                        == Self::spec_boundary(range, k, j),
                forall|j: int|
                    0 <= j < i as int && j < k - 2 ==> #[trigger] buckets@[j].spec_range().end.as_int()
                        == Self::spec_boundary(range, k, j + 1),
                i as int == k - 1 ==> buckets@[k - 2].spec_range().end == range.end,
            decreases capacity - i,
        {
            let is_last = i == capacity - 1;
            proof {
                lemma_mul_nonnegative(i as int, stp);
                lemma_mul_inequality(i as int + 1, capacity as int, stp);
                lemma_mul_is_commutative(i as int + 1, stp);
                lemma_mul_is_commutative(capacity as int, stp);
                assert((i as int + 1) * stp == i as int * stp + stp) by (nonlinear_arith);
                assert(range.spec_len() <= S::max_int());
            }
            let end = if is_last {
                range.end
            } else if range_reversed {
                match start.checked_sub(step_by) {
                    Some(v) => v,
                    None => S::zero(),
                }
            } else {
                match start.checked_add(step_by) {
                    Some(v) => v,
                    None => S::max_value(),
                }
            };
            let sub = ReversibleRange::new(start, end);
            let values_lo = value_sets[i];
            let values_hi = value_sets[i + 1];
            buckets.push(InterpolationBucket::new(sub, values_lo, values_hi));
            start = end;
            i = i + 1;
        }
        let result = Self { buckets };
        proof {
            let bs = result.spec_buckets();
            assert(bs == buckets@);
            assert(bs.len() == k - 1);
            assert forall|j: int|
                0 <= j < k - 1 implies #[trigger] bs[j].spec_values_lo() == value_sets@[j]@
                    && bs[j].spec_values_hi() == value_sets@[j + 1]@ by {
                assert(buckets@[j].spec_values_lo() == value_sets@[j]@);
                assert(buckets@[j].spec_values_hi() == value_sets@[j + 1]@);
            }
            assert(bs[0].spec_range().start == range.start);
            assert(bs[k - 2].spec_range().end == range.end);
            assert forall|j: int|
                0 <= j < k - 2 implies #[trigger] bs[j + 1].spec_range().start
                    == bs[j].spec_range().end by {
                assert(buckets@[j + 1].spec_range().start == buckets@[j].spec_range().end);
            }
            assert forall|j: int|
                0 <= j < k - 1 implies #[trigger] bs[j].spec_range().start.as_int()
                    == Self::spec_boundary(range, k, j) by {
                assert(buckets@[j].spec_range().start.as_int() == Self::spec_boundary(
                    range,
                    k,
                    j,
                ));
            }
            assert forall|j: int|
                0 <= j < k - 2 implies #[trigger] bs[j].spec_range().end.as_int()
                    == Self::spec_boundary(range, k, j + 1) by {
                assert(buckets@[j].spec_range().end.as_int() == Self::spec_boundary(
                    range,
                    k,
                    j + 1,
                ));
            }
            assert(result.built_from(range, value_sets@));
        }
        Some(result)
    }

    /// Create a new linear interpolator from a pre-built sequence of
    /// buckets.
    ///
    /// For the searching and interpolating methods to behave as a
    /// piecewise-linear function of the whole range, the buckets must be
    /// sorted by range, contiguous, and uniform in direction, as
    /// [`Self::new`] builds them; this constructor does not check that.
    pub fn new_from_raw(buckets: Vec<InterpolationBucket<N, S, T>>) -> (r: Self)
        ensures
            r.spec_buckets() == buckets@,
    {
        Self { buckets }
    }

    /// Returns true if the range for this interpolator has start > end.
    pub fn is_reversed(&self) -> (r: bool)
        ensures
            r == self.spec_is_reversed(),
    {
        if self.buckets.len() == 0 {
            false
        } else {
            self.buckets[0].range().is_reversed()
        }
    }

    /// Get the set of discrete interpolations this interpolator will use.
    pub fn buckets(&self) -> (r: &[InterpolationBucket<N, S, T>])
        ensures
            r@ == self.spec_buckets(),
    {
        self.buckets.as_slice()
    }

    /// Returns the bucket that owns the given query value, found by
    /// direction-aware binary search.
    pub fn get_bucket(&self, s: S) -> (r: &InterpolationBucket<N, S, T>)
        requires
            self.wf(),
        ensures
            0 <= self.bucket_index_of(s.as_int()) < self.spec_buckets().len(),
            *r == self.spec_buckets()[self.bucket_index_of(s.as_int())],
    {
        let rev = self.is_reversed();
        let mut lo: usize = 0;
        let mut hi: usize = self.buckets.len();

        while hi - lo > 1
            invariant
                0 <= lo < hi <= self.spec_buckets().len(),
                rev == self.spec_is_reversed(),
                self.bucket_index_of(s.as_int()) == self.search_between(
                    s.as_int(),
                    lo as int,
                    hi as int,
                ),
            decreases hi - lo,
        {
            let mid = lo + (hi - lo) / 2;
            let mid_bucket = &self.buckets[mid];

            if mid_bucket.range().contains(s) {
                return &self.buckets[mid];
            }
            let mid_start = mid_bucket.start();
            if (!rev && mid_start.lte(s)) || (rev && s.lte(mid_start)) {
                lo = mid;
            } else {
                hi = mid;
            }
        }

        &self.buckets[lo]
    }

    /// Interpolate between the value sets based on the given query value.
    /// Returns a new set of values interpolated across the range.
    ///
    /// Uses a binary search to locate the appropriate pair of value sets
    /// to interpolate between.
    pub fn interpolate(&self, s: S) -> (values: [T; N])
        requires
            self.wf(),
        ensures
            values@.len() == N,
            forall|i: int|
                0 <= i < N ==> #[trigger] values@[i].as_int() == self.spec_interpolate(
                    s.as_int(),
                    i,
                ),
    {
        let bucket = self.get_bucket(s);
        bucket.interpolate(s)
    }

    /// The first bucket index at or after `i` whose reverse interpolation
    /// accepts the target `vals`, or the bucket count when none does.
    pub open spec fn first_accepting_from(self, vals: Seq<T>, i: int) -> int
        decreases self.spec_buckets().len() - i,
    {
        if i >= self.spec_buckets().len() {
            self.spec_buckets().len() as int
        } else if self.spec_buckets()[i].rev_accept(vals) {
            i
        } else {
            self.first_accepting_from(vals, i + 1)
        }
    }

    /// The first bucket whose reverse interpolation accepts the target
    /// `vals`, or the bucket count when none does.
    pub open spec fn first_accepting(self, vals: Seq<T>) -> int {
        self.first_accepting_from(vals, 0)
    }

    /// Skipping buckets that do not accept the target does not change
    /// which bucket is found first.
    proof fn lemma_first_accepting_skip(self, vals: Seq<T>, i: int, k: int)
        requires
            0 <= i <= k <= self.spec_buckets().len(),
            forall|j: int| i <= j < k ==> !self.spec_buckets()[j].rev_accept(vals),
        ensures
            self.first_accepting_from(vals, i) == self.first_accepting_from(vals, k),
        decreases k - i,
    {
        if i < k {
            self.lemma_first_accepting_skip(vals, i + 1, k);
        }
    }

    /// Attempt to find a query in the range that could produce the given
    /// set of values: the buckets are scanned in order and the first one
    /// whose reverse interpolation succeeds decides the answer.
    ///
    /// This may be slow, since all buckets may be checked.
    pub fn reverse_interpolate(&self, values: &[T; N]) -> (r: Option<S>)
        ensures
            r is Some <==> self.first_accepting(values@) < self.spec_buckets().len(),
            r matches Some(v) ==> v.as_int() == self.spec_buckets()[self.first_accepting(
                values@,
            )].rev_result_int(values@),
    {
        let mut i: usize = 0;
        while i < self.buckets.len()
            invariant
                0 <= i <= self.spec_buckets().len(),
                forall|j: int| 0 <= j < i ==> !self.spec_buckets()[j].rev_accept(values@),
            decreases self.spec_buckets().len() - i,
        {
            let attempt = self.buckets[i].reverse_interpolate(values);
            match attempt {
                Some(s) => {
                    proof {
                        self.lemma_first_accepting_skip(values@, 0, i as int);
                    }
                    return Some(s);
                },
                None => {},
            }
            i = i + 1;
        }
        proof {
            self.lemma_first_accepting_skip(values@, 0, self.spec_buckets().len() as int);
        }
        None
    }
}

} // verus!

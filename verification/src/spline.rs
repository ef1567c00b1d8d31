//! The piecewise-cubic container: interval breaks, node values and the four
//! cubic coefficients of each interval, with interval lookup.

use vstd::prelude::*;
use crate::binsearch::{
    all_finite, binary_search_interval, index_option, interval_inside, lemma_inside_is_between,
    lemma_search_finds_containing_interval, locates, search_result, spec_interval_inside,
    monotone, non_decreasing,
};
use crate::ieee::{float_gt, is_nan, rank, spec_gt, spec_is_finite, spec_is_nan, ZERO_BITS};

verus! {

/// One-dimensional piecewise polynomial. On the interval
/// `[breaks_x[k], breaks_x[k + 1]]` it is
/// `((a * dx + b) * dx + c) * dx + d` with `[a, b, c, d] = coeffs[k]` and
/// `dx = x - breaks_x[k]`. Values are binary64 bit patterns.
#[derive(Debug, Clone)]
pub struct Spline {
    pub breaks_x: Vec<u64>,
    pub breaks_y: Vec<u64>,
    pub coeffs: Vec<[u64; 4]>,
}

/// A NaN coefficient is stored as positive zero.
pub open spec fn sanitized(b: u64) -> u64 {
    if spec_is_nan(b) {
        ZERO_BITS
    } else {
        b
    }
}

/// The coefficients that `Spline::new` stores for interval `k`: the two
/// leading ones given, the node slope and the node value, each with a NaN
/// replaced by zero.
pub open spec fn assembled_coeffs(leading: [u64; 2], slope: u64, value: u64) -> Seq<u64> {
    seq![sanitized(leading@[0]), sanitized(leading@[1]), sanitized(slope), sanitized(value)]
}

/// The running maximum scan of `Spline::max_value_index` over `ys[0..k]`,
/// started from the value `init` at index 0: the value and index it holds,
/// moving on only to a strictly greater value.
pub open spec fn max_scan(ys: Seq<u64>, init: u64, k: int) -> (u64, int)
    decreases k,
{
    if k <= 0 {
        (init, 0)
    } else {
        let prev = max_scan(ys, init, k - 1);
        if spec_gt(ys[k - 1], prev.0) {
            (ys[k - 1], k - 1)
        } else {
            prev
        }
    }
}

/// Replaces a NaN by positive zero.
fn sanitize(b: u64) -> (r: u64)
    ensures
        r == sanitized(b),
{
    if is_nan(b) {
        ZERO_BITS
    } else {
        b
    }
}

impl Spline {
    /// The shape every constructed spline has: at least one break, one
    /// coefficient array per interval and a node value for every break.
    pub open spec fn wf(&self) -> bool {
        &&& self.breaks_x@.len() >= 1
        &&& self.coeffs@.len() + 1 == self.breaks_x@.len()
        &&& self.breaks_y@.len() >= self.breaks_x@.len()
    }

    /// What `lookup` returns: the first interval when it holds `x`,
    /// otherwise the result of the binary search over the breaks.
    pub open spec fn lookup_result(&self, x: u64) -> Option<int> {
        if spec_interval_inside(x, self.breaks_x@[0], self.breaks_x@[1]) {
            Some(0)
        } else {
            search_result(x, self.breaks_x@)
        }
    }

    /// Builds the container from the breaks `xx`, the node values `yy`, the
    /// node slopes `ss` and, for each interval, its two leading cubic
    /// coefficients. Interval `k` gets `[a, b, ss[k], yy[k]]`, where a NaN
    /// coefficient becomes zero.
    pub fn new(xx: &[u64], yy: &[u64], ss: &[u64], leading: &[[u64; 2]]) -> (s: Self)
        requires
            xx@.len() >= 1,
            yy@.len() >= xx@.len(),
            ss@.len() >= xx@.len(),
            leading@.len() + 1 == xx@.len(),
        ensures
            s.wf(),
            s.breaks_x@ == xx@,
            s.breaks_y@ == yy@,
            forall|k: int|
                0 <= k < s.coeffs@.len() ==> #[trigger] s.coeffs@[k]@ == assembled_coeffs(
                    leading@[k],
                    ss@[k],
                    yy@[k],
                ),
            forall|k: int, m: int|
                0 <= k < s.coeffs@.len() && 0 <= m < 4 ==> !spec_is_nan(#[trigger] s.coeffs@[k]@[m]),
    {
        let n = xx.len() - 1;
        let mut coeffs: Vec<[u64; 4]> = Vec::new();
        let mut k: usize = 0;
        while k < n
            invariant
                n + 1 == xx@.len(),
                k <= n,
                leading@.len() == n,
                yy@.len() > n,
                ss@.len() > n,
                coeffs@.len() == k,
                forall|j: int|
                    0 <= j < k ==> #[trigger] coeffs@[j]@ == assembled_coeffs(
                        leading@[j],
                        ss@[j],
                        yy@[j],
                    ),
            decreases n - k,
        {
            let ab = leading[k];
            let c: [u64; 4] = [sanitize(ab[0]), sanitize(ab[1]), sanitize(ss[k]), sanitize(yy[k])];
            assert(c@ =~= assembled_coeffs(ab, ss@[k as int], yy@[k as int]));
            coeffs.push(c);
            k = k + 1;
        }
        Spline {
            breaks_x: vstd::slice::slice_to_vec(xx),
            breaks_y: vstd::slice::slice_to_vec(yy),
            coeffs: coeffs,
        }
    }

    /// Returns the index of the interval containing the value `x`, by
    /// binary search over the breaks; `None` for a NaN or infinite `x`.
    pub fn index(&self, x: &u64) -> (res: Option<usize>)
        requires
            self.breaks_x@.len() >= 1 || !spec_is_finite(*x),
        ensures
            !spec_is_finite(*x) ==> res is None,
            index_option(res) == search_result(*x, self.breaks_x@),
    {
        let bx = &self.breaks_x;
        let locator = |loc: usize| -> (v: u64)
            requires
                loc < bx@.len(),
            ensures
                v == bx@[loc as int],
            { bx[loc] };
        let r = binary_search_interval(bx.len(), x, locator);
        assert(locates(locator, bx@));
        r
    }

    /// Checks whether the value `x` is inside interval `idx`.
    fn check_index(&self, idx: &usize, x: &u64) -> (r: bool)
        requires
            *idx + 1 < self.breaks_x@.len(),
        ensures
            r == spec_interval_inside(*x, self.breaks_x@[*idx as int], self.breaks_x@[*idx + 1]),
    {
        proof {
            assert(*idx + 1 < self.breaks_x.len());
        }
        interval_inside(*x, (self.breaks_x[*idx], self.breaks_x[*idx + 1]))
    }

    /// The interval that the interpolation functions evaluate for `x`: the
    /// first interval when it holds `x`, otherwise the one found by `index`;
    /// `None` when there is none.
    pub fn lookup(&self, x: &u64) -> (res: Option<usize>)
        requires
            self.breaks_x@.len() >= 2,
        ensures
            index_option(res) == self.lookup_result(*x),
    {
        let first: usize = 0;
        if self.check_index(&first, x) {
            Some(first)
        } else {
            self.index(x)
        }
    }

    /// The node value at `index`.
    pub fn yvalue(&self, index: usize) -> (r: u64)
        requires
            index < self.breaks_y@.len(),
        ensures
            r == self.breaks_y@[index as int],
    {
        self.breaks_y[index]
    }

    /// Index of the largest node value, by a linear scan that starts from
    /// the constant coefficient of the first interval and moves on only to a
    /// strictly greater value.
    pub fn max_value_index(&self) -> (r: usize)
        requires
            self.coeffs@.len() >= 1,
        ensures
            r as int == max_scan(self.breaks_y@, self.coeffs@[0]@[3], self.breaks_y@.len() as int).1,
    {
        let mut curr = self.coeffs[0][3];
        let mut currindex: usize = 0;
        let mut k: usize = 0;
        while k < self.breaks_y.len()
            invariant
                k <= self.breaks_y@.len(),
                self.coeffs@.len() >= 1,
                (curr, currindex as int) == max_scan(self.breaks_y@, self.coeffs@[0]@[3], k as int),
            decreases self.breaks_y@.len() - k,
        {
            let val = self.breaks_y[k];
            if float_gt(val, curr) {
                curr = val;
                currindex = k;
            }
            k = k + 1;
        }
        currindex
    }
}

/// The first index of `ys` whose value is the largest: no earlier value
/// reaches it and no later value exceeds it.
pub open spec fn is_first_maximum(ys: Seq<u64>, r: int) -> bool {
    &&& 0 <= r < ys.len()
    &&& forall|j: int| 0 <= j < r ==> rank(#[trigger] ys[j]) < rank(ys[r])
    &&& forall|j: int| r < j < ys.len() ==> rank(#[trigger] ys[j]) <= rank(ys[r])
}

proof fn lemma_max_scan_prefix(ys: Seq<u64>, k: int)
    requires
        1 <= k <= ys.len(),
        forall|j: int| 0 <= j < ys.len() ==> !spec_is_nan(#[trigger] ys[j]),
    ensures
        max_scan(ys, ys[0], k).0 == ys[max_scan(ys, ys[0], k).1],
        is_first_maximum(ys.take(k), max_scan(ys, ys[0], k).1),
    decreases k,
{
    let t = ys.take(k);
    if k > 1 {
        lemma_max_scan_prefix(ys, k - 1);
        let prev = max_scan(ys, ys[0], k - 1);
        let p = ys.take(k - 1);
        assert(!spec_is_nan(ys[k - 1]));
        assert(!spec_is_nan(ys[prev.1]));
        assert forall|j: int| 0 <= j < k - 1 implies #[trigger] t[j] == p[j] by {}
        let r = max_scan(ys, ys[0], k).1;
        if spec_gt(ys[k - 1], prev.0) {
            assert(r == k - 1);
            assert forall|j: int| 0 <= j < r implies rank(#[trigger] t[j]) < rank(t[r]) by {
                assert(rank(p[j]) <= rank(p[prev.1]));
            }
        } else {
            assert(r == prev.1);
            assert forall|j: int| r < j < k implies rank(#[trigger] t[j]) <= rank(t[r]) by {
                if j < k - 1 {
                    assert(rank(p[j]) <= rank(p[prev.1]));
                }
            }
            assert forall|j: int| 0 <= j < r implies rank(#[trigger] t[j]) < rank(t[r]) by {
                assert(rank(p[j]) < rank(p[prev.1]));
            }
        }
    } else {
        assert(!spec_is_nan(ys[0]));
        assert(max_scan(ys, ys[0], 0) == (ys[0], 0int));
    }
}

/// When no node value is NaN and the scan starts from the first node value
/// (as it does for every spline built by `Spline::new` whose first node
/// value is not NaN), `max_value_index` returns the first index of the
/// largest node value.
pub proof fn lemma_max_value_index_is_first_maximum(ys: Seq<u64>)
    requires
        ys.len() >= 1,
        forall|j: int| 0 <= j < ys.len() ==> !spec_is_nan(#[trigger] ys[j]),
    ensures
        is_first_maximum(ys, max_scan(ys, ys[0], ys.len() as int).1),
{
    lemma_max_scan_prefix(ys, ys.len() as int);
    assert(ys.take(ys.len() as int) =~= ys);
}

/// On a spline whose breaks are finite and monotone (repeated breaks
/// allowed), `lookup` succeeds exactly for the finite values within the
/// span of the breaks, and the interval it returns is the first one
/// holding the value.
pub proof fn lemma_lookup_finds_containing_interval(s: Spline, x: u64)
    requires
        s.breaks_x@.len() >= 2,
        all_finite(s.breaks_x@),
        monotone(s.breaks_x@),
    ensures
        s.lookup_result(x) is Some <==> (spec_is_finite(x) && spec_interval_inside(
            x,
            s.breaks_x@[0],
            s.breaks_x@[s.breaks_x@.len() - 1],
        )),
        s.lookup_result(x) matches Some(i) ==> 0 <= i < s.breaks_x@.len() - 1
            && spec_interval_inside(x, s.breaks_x@[i], s.breaks_x@[i + 1]),
        s.lookup_result(x) matches Some(i) ==> forall|j: int|
            0 <= j < i ==> !spec_interval_inside(x, #[trigger] s.breaks_x@[j], s.breaks_x@[j + 1]),
{
    let bx = s.breaks_x@;
    let last = bx.len() - 1;
    lemma_search_finds_containing_interval(x, bx);
    assert(spec_is_finite(bx[0]));
    assert(spec_is_finite(bx[1]));
    assert(spec_is_finite(bx[last]));
    if spec_interval_inside(x, bx[0], bx[1]) {
        lemma_inside_is_between(x, bx[0], bx[1]);
        lemma_inside_is_between(x, bx[0], bx[last]);
        if last > 1 {
            if non_decreasing(bx) {
                assert(rank(bx[0]) <= rank(bx[1]) <= rank(bx[last]));
            } else {
                assert(rank(bx[0]) >= rank(bx[1]) >= rank(bx[last]));
            }
        }
    }
}

/// A coefficient that is not NaN is stored unchanged; a NaN is stored as
/// positive zero.
pub proof fn lemma_sanitized_keeps_numbers(b: u64)
    ensures
        !spec_is_nan(b) ==> sanitized(b) == b,
        spec_is_nan(b) ==> sanitized(b) == ZERO_BITS,
        !spec_is_nan(sanitized(b)),
{
}

/// The coefficients `Spline::new` stores for an interval are, in order, the
/// two leading ones given, the node slope and the node value, each kept as
/// given unless it is NaN.
pub proof fn lemma_assembled_coeffs_positions(leading: [u64; 2], slope: u64, value: u64)
    ensures
        assembled_coeffs(leading, slope, value).len() == 4,
        !spec_is_nan(leading@[0]) ==> assembled_coeffs(leading, slope, value)[0] == leading@[0],
        !spec_is_nan(leading@[1]) ==> assembled_coeffs(leading, slope, value)[1] == leading@[1],
        !spec_is_nan(slope) ==> assembled_coeffs(leading, slope, value)[2] == slope,
        !spec_is_nan(value) ==> assembled_coeffs(leading, slope, value)[3] == value,
        forall|m: int| 0 <= m < 4 ==> !spec_is_nan(#[trigger] assembled_coeffs(leading, slope, value)[m]),
{
}

} // verus!

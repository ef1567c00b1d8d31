//! Locating the interval of a monotone sequence of breaks that holds a value.

use vstd::prelude::*;
use crate::ieee::{check_float, float_eq, float_gt, rank, spec_eq, spec_gt, spec_is_finite, spec_is_nan};

verus! {

/// `val` lies in the closed interval spanned by `a` and `c`, in either
/// orientation; `val` equal to an end counts as inside.
pub open spec fn spec_interval_inside(val: u64, a: u64, c: u64) -> bool {
    ||| spec_eq(val, a)
    ||| spec_eq(val, c)
    ||| (spec_gt(c, a) && spec_gt(val, a) && !spec_gt(val, c))
    ||| (spec_gt(a, c) && spec_gt(val, c) && !spec_gt(val, a))
}

/// `r` lies between `p` and `q`, both ends included, in either orientation.
pub open spec fn between(r: int, p: int, q: int) -> bool {
    (p <= r && r <= q) || (q <= r && r <= p)
}

/// The bisection that `binary_search_interval` runs on `vals[n0..=n1]`:
/// halve the index range, keep the left half when `sval` lies between
/// `vals[n0]` and the midpoint value, the right half otherwise, and give up
/// on a probed value that is NaN or infinite.
pub open spec fn bisect(sval: u64, vals: Seq<u64>, n0: int, n1: int) -> Option<int>
    decreases n1 - n0,
{
    if n1 - n0 <= 1 {
        Some(n0)
    } else {
        let n = (n0 + n1) / 2;
        if !spec_is_finite(vals[n]) {
            None
        } else if spec_interval_inside(sval, vals[n0], vals[n]) {
            bisect(sval, vals, n0, n)
        } else {
            bisect(sval, vals, n, n1)
        }
    }
}

/// What `binary_search_interval` returns for the break values `vals`: `None`
/// for a NaN or infinite search value or end value, or a search value
/// outside the span of the ends; otherwise the outcome of the bisection.
pub open spec fn search_result(sval: u64, vals: Seq<u64>) -> Option<int> {
    let last = vals.len() - 1;
    if !spec_is_finite(sval) || !spec_is_finite(vals[0]) || !spec_is_finite(vals[last]) {
        None
    } else if !spec_interval_inside(sval, vals[0], vals[last]) {
        None
    } else {
        bisect(sval, vals, 0, last)
    }
}

/// The `Option<usize>` result read as an `Option<int>`.
pub open spec fn index_option(o: Option<usize>) -> Option<int> {
    match o {
        Some(n) => Some(n as int),
        None => None,
    }
}

/// `locator` hands out `vals[i]` for each index `i` below `vals.len()`.
pub open spec fn locates<F: Fn(usize) -> u64>(locator: F, vals: Seq<u64>) -> bool {
    forall|i: usize, v: u64|
        #![trigger locator.ensures((i,), v)]
        (i as int) < vals.len() && locator.ensures((i,), v) ==> v == vals[i as int]
}

/// Every value is neither NaN nor infinite.
pub open spec fn all_finite(vals: Seq<u64>) -> bool {
    forall|i: int| 0 <= i < vals.len() ==> #[trigger] spec_is_finite(vals[i])
}

/// The values never decrease with the index.
pub open spec fn non_decreasing(vals: Seq<u64>) -> bool {
    forall|i: int, j: int| 0 <= i <= j < vals.len() ==> rank(#[trigger] vals[i]) <= rank(#[trigger] vals[j])
}

/// The values never increase with the index.
pub open spec fn non_increasing(vals: Seq<u64>) -> bool {
    forall|i: int, j: int| 0 <= i <= j < vals.len() ==> rank(#[trigger] vals[i]) >= rank(#[trigger] vals[j])
}

/// The values are monotone in the index, in either direction; repeated
/// values are allowed.
pub open spec fn monotone(vals: Seq<u64>) -> bool {
    non_decreasing(vals) || non_increasing(vals)
}

/// Check whether `val` is inside the interval spanned by `vals.0` and
/// `vals.1`, in either orientation.
pub fn interval_inside(val: u64, vals: (u64, u64)) -> (r: bool)
    ensures
        r == spec_interval_inside(val, vals.0, vals.1),
{
    if float_eq(val, vals.0) || float_eq(val, vals.1) {
        return true;
    }
    let b1 = float_gt(val, vals.0);
    let b2 = float_gt(val, vals.1);
    (float_gt(vals.1, vals.0) && b1 && !b2) || (float_gt(vals.0, vals.1) && b2 && !b1)
}

/// A locator over a slice: the value at `loc`.
pub fn slice_locator<T: Copy>(slc: &[T], loc: usize) -> (r: T)
    requires
        loc < slc@.len(),
    ensures
        r == slc@[loc as int],
{
    slc[loc]
}

/// `true` when some value of the array is NaN or infinite.
pub fn check_floats<const N: usize>(vals: &[u64; N]) -> (r: bool)
    ensures
        r == exists|i: int| 0 <= i < N && !spec_is_finite(#[trigger] vals@[i]),
{
    let mut i: usize = 0;
    while i < N
        invariant
            i <= N,
            vals@.len() == N,
            forall|j: int| 0 <= j < i ==> spec_is_finite(#[trigger] vals@[j]),
        decreases N - i,
    {
        if check_float(vals[i]) {
            return true;
        }
        i = i + 1;
    }
    false
}

/// Binary search for the interval holding `sval` among the `size` break
/// values that `locator` returns for the indices `0..size`, which are meant
/// to be monotone in the index. NaN and infinite values are not accepted:
/// the search gives up with `None` on one, and a NaN or infinite `sval` is
/// refused before `size` is read or `locator` is called. It also returns
/// `None` for a value outside the span of the first and last break.
pub fn binary_search_interval<F: Fn(usize) -> u64>(size: usize, sval: &u64, locator: F) -> (res: Option<usize>)
    requires
        size >= 1 || !spec_is_finite(*sval),
        forall|i: usize| i < size ==> #[trigger] locator.requires((i,)),
    ensures
        !spec_is_finite(*sval) ==> res is None,
        size >= 1 && (forall|v: u64| #[trigger] locator.ensures((0usize,), v) ==> !spec_is_finite(v))
            ==> res is None,
        size >= 1 && (forall|v: u64| #[trigger] locator.ensures(((size - 1) as usize,), v)
            ==> !spec_is_finite(v)) ==> res is None,
        res matches Some(n) ==> n < size && (size >= 2 ==> n + 1 < size),
        forall|vals: Seq<u64>|
            vals.len() == size && #[trigger] locates(locator, vals) ==> index_option(res)
                == search_result(*sval, vals),
{
    if check_float(*sval) {
        return None;
    }
    let mut n0: usize = 0;
    let mut n1: usize = size - 1;
    let mut v0 = locator(n0);
    let v1 = locator(n1);
    if check_float(v0) || check_float(v1) {
        return None;
    }
    if !interval_inside(*sval, (v0, v1)) {
        return None;
    }
    while n1 - n0 > 1
        invariant
            n0 < n1 < size || (n0 == n1 && n1 == 0),
            n1 == size - 1 || n0 < n1,
            size >= 1,
            forall|i: usize| i < size ==> #[trigger] locator.requires((i,)),
            forall|vals: Seq<u64>|
                vals.len() == size && #[trigger] locates(locator, vals) ==> {
                    &&& v0 == vals[n0 as int]
                    &&& search_result(*sval, vals) == bisect(*sval, vals, n0 as int, n1 as int)
                },
        decreases n1 - n0,
    {
        let n = n0 + (n1 - n0) / 2;
        let v = locator(n);
        assert forall|vals: Seq<u64>| vals.len() == size && #[trigger] locates(locator, vals) implies v
            == vals[n as int] by {
            assert(locator.ensures((n,), v));
        }
        if check_float(v) {
            return None;
        }
        if interval_inside(*sval, (v0, v)) {
            n1 = n;
        } else {
            n0 = n;
            v0 = v;
        }
    }
    Some(n0)
}

/// For values that are not NaN, being inside the interval is lying between
/// its ends in the order of the extended reals.
pub proof fn lemma_inside_is_between(val: u64, a: u64, c: u64)
    requires
        !spec_is_nan(val),
        !spec_is_nan(a),
        !spec_is_nan(c),
    ensures
        spec_interval_inside(val, a, c) <==> between(rank(val), rank(a), rank(c)),
{
}

proof fn lemma_bisect_finds(sval: u64, vals: Seq<u64>, n0: int, n1: int)
    requires
        0 <= n0 < n1 < vals.len(),
        all_finite(vals),
        monotone(vals),
        spec_is_finite(sval),
        spec_interval_inside(sval, vals[n0], vals[n1]),
    ensures
        bisect(sval, vals, n0, n1) matches Some(n) && n0 <= n < n1 && spec_interval_inside(
            sval,
            vals[n],
            vals[n + 1],
        ),
        bisect(sval, vals, n0, n1) matches Some(n) ==> forall|j: int|
            n0 <= j < n ==> !spec_interval_inside(sval, #[trigger] vals[j], vals[j + 1]),
    decreases n1 - n0,
{
    if n1 - n0 > 1 {
        let n = (n0 + n1) / 2;
        assert(spec_is_finite(vals[n]));
        assert(spec_is_finite(vals[n0]));
        assert(spec_is_finite(vals[n1]));
        lemma_inside_is_between(sval, vals[n0], vals[n1]);
        lemma_inside_is_between(sval, vals[n0], vals[n]);
        lemma_inside_is_between(sval, vals[n], vals[n1]);
        if spec_interval_inside(sval, vals[n0], vals[n]) {
            lemma_bisect_finds(sval, vals, n0, n);
        } else {
            let up = non_decreasing(vals);
            if up {
                assert(rank(vals[n0]) <= rank(vals[n]) <= rank(vals[n1]));
                assert(rank(sval) > rank(vals[n]));
            } else {
                assert(rank(vals[n0]) >= rank(vals[n]) >= rank(vals[n1]));
                assert(rank(sval) < rank(vals[n]));
            }
            lemma_bisect_finds(sval, vals, n, n1);
            assert forall|j: int| n0 <= j < n implies !spec_interval_inside(
                sval,
                #[trigger] vals[j],
                vals[j + 1],
            ) by {
                assert(spec_is_finite(vals[j]));
                assert(spec_is_finite(vals[j + 1]));
                lemma_inside_is_between(sval, vals[j], vals[j + 1]);
                if up {
                    assert(rank(vals[j]) <= rank(vals[j + 1]) <= rank(vals[n]));
                } else {
                    assert(rank(vals[j]) >= rank(vals[j + 1]) >= rank(vals[n]));
                }
            }
        }
    }
}

/// On monotone break values that are all finite, the search
/// succeeds exactly for the finite values inside the span of the first and
/// last break, and the index it returns is that of the first interval
/// holding the value.
pub proof fn lemma_search_finds_containing_interval(sval: u64, vals: Seq<u64>)
    requires
        vals.len() >= 2,
        all_finite(vals),
        monotone(vals),
    ensures
        search_result(sval, vals) is Some <==> (spec_is_finite(sval) && spec_interval_inside(
            sval,
            vals[0],
            vals[vals.len() - 1],
        )),
        search_result(sval, vals) matches Some(n) ==> 0 <= n < vals.len() - 1
            && spec_interval_inside(sval, vals[n], vals[n + 1]),
        search_result(sval, vals) matches Some(n) ==> forall|j: int|
            0 <= j < n ==> !spec_interval_inside(sval, #[trigger] vals[j], vals[j + 1]),
{
    let last = vals.len() - 1;
    assert(spec_is_finite(vals[0]));
    assert(spec_is_finite(vals[last]));
    if spec_is_finite(sval) && spec_interval_inside(sval, vals[0], vals[last]) {
        lemma_bisect_finds(sval, vals, 0, last);
    }
}

/// Being inside an interval does not depend on the orientation of its ends.
pub proof fn lemma_interval_inside_symmetric(val: u64, a: u64, c: u64)
    ensures
        spec_interval_inside(val, a, c) == spec_interval_inside(val, c, a),
{
}

/// Each end of an interval that is not NaN lies inside it.
pub proof fn lemma_interval_ends_inside(a: u64, c: u64)
    requires
        !spec_is_nan(a),
        !spec_is_nan(c),
    ensures
        spec_interval_inside(a, a, c),
        spec_interval_inside(c, a, c),
{
}

/// A NaN is inside no interval.
pub proof fn lemma_nan_inside_nothing(val: u64, a: u64, c: u64)
    requires
        spec_is_nan(val),
    ensures
        !spec_interval_inside(val, a, c),
{
}

/// With a NaN end, an interval holds only values equal to its other end.
pub proof fn lemma_interval_with_nan_end(val: u64, a: u64, c: u64)
    requires
        spec_is_nan(a),
    ensures
        spec_interval_inside(val, a, c) <==> spec_eq(val, c),
        spec_interval_inside(val, c, a) <==> spec_eq(val, c),
{
}

} // verus!

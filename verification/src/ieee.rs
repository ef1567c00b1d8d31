//! IEEE-754 binary64 values seen through their bit patterns.
//!
//! A non-NaN pattern `b` stands for a point of the extended real line whose
//! position in the order is `rank(b)`: the magnitude bits for a clear sign
//! bit and their negation for a set sign bit. Positive and negative zero
//! share rank 0, and the infinities sit beyond every finite value.

use vstd::prelude::*;

verus! {

/// The sign bit of a binary64 pattern.
pub const SIGN_BIT: u64 = 0x8000_0000_0000_0000;

/// The pattern of positive infinity; every larger magnitude is a NaN.
pub const INFINITY_BITS: u64 = 0x7FF0_0000_0000_0000;

/// The pattern of positive zero.
pub const ZERO_BITS: u64 = 0;

/// The pattern of `1.0`.
pub const ONE_BITS: u64 = 0x3FF0_0000_0000_0000;

/// The pattern of `-1.0`.
pub const MINUS_ONE_BITS: u64 = 0xBFF0_0000_0000_0000;

/// The pattern with its sign bit cleared.
pub open spec fn magnitude(b: u64) -> int {
    if b >= SIGN_BIT {
        b - SIGN_BIT
    } else {
        b as int
    }
}

pub open spec fn spec_is_nan(b: u64) -> bool {
    magnitude(b) > INFINITY_BITS
}

pub open spec fn spec_is_infinite(b: u64) -> bool {
    magnitude(b) == INFINITY_BITS
}

/// Neither NaN nor infinite.
pub open spec fn spec_is_finite(b: u64) -> bool {
    magnitude(b) < INFINITY_BITS
}

/// Position of a non-NaN pattern in the order of the extended reals.
pub open spec fn rank(b: u64) -> int {
    if b >= SIGN_BIT {
        -(b - SIGN_BIT)
    } else {
        b as int
    }
}

/// `a == b` on binary64 values: false whenever a NaN is involved.
pub open spec fn spec_eq(a: u64, b: u64) -> bool {
    !spec_is_nan(a) && !spec_is_nan(b) && rank(a) == rank(b)
}

/// `a < b` on binary64 values: false whenever a NaN is involved.
pub open spec fn spec_lt(a: u64, b: u64) -> bool {
    !spec_is_nan(a) && !spec_is_nan(b) && rank(a) < rank(b)
}

/// `a > b` on binary64 values.
pub open spec fn spec_gt(a: u64, b: u64) -> bool {
    spec_lt(b, a)
}

/// The value of `sign` on a pattern: `1.0` above zero, `-1.0` below, and
/// positive zero for zeros and NaNs.
pub open spec fn spec_sign(v: u64) -> u64 {
    if spec_gt(v, ZERO_BITS) {
        ONE_BITS
    } else if spec_lt(v, ZERO_BITS) {
        MINUS_ONE_BITS
    } else {
        ZERO_BITS
    }
}

/// The value of `min_abs`: the smaller of the two absolute values, the
/// second one unless the first is strictly smaller.
pub open spec fn spec_min_abs(a: u64, b: u64) -> u64 {
    if spec_lt(magnitude(a) as u64, magnitude(b) as u64) {
        magnitude(a) as u64
    } else {
        magnitude(b) as u64
    }
}

/// The value of `max_abs`: the larger of the two absolute values, the
/// second one unless the first is strictly larger.
pub open spec fn spec_max_abs(a: u64, b: u64) -> u64 {
    if spec_gt(magnitude(a) as u64, magnitude(b) as u64) {
        magnitude(a) as u64
    } else {
        magnitude(b) as u64
    }
}

fn magnitude_of(bits: u64) -> (m: u64)
    ensures
        m == magnitude(bits),
{
    if bits >= SIGN_BIT {
        bits - SIGN_BIT
    } else {
        bits
    }
}

fn rank_of(bits: u64) -> (r: i64)
    ensures
        r == rank(bits),
{
    if bits >= SIGN_BIT {
        let m = bits - SIGN_BIT;
        -(m as i64)
    } else {
        bits as i64
    }
}

/// `true` for NaN patterns.
pub fn is_nan(bits: u64) -> (r: bool)
    ensures
        r == spec_is_nan(bits),
{
    magnitude_of(bits) > INFINITY_BITS
}

/// `true` for the patterns of positive and negative infinity.
pub fn is_infinite(bits: u64) -> (r: bool)
    ensures
        r == spec_is_infinite(bits),
{
    magnitude_of(bits) == INFINITY_BITS
}

/// `true` when the value is NaN or infinite, the values that interval lookup
/// does not accept.
pub fn check_float(bits: u64) -> (r: bool)
    ensures
        r == !spec_is_finite(bits),
        r == (spec_is_nan(bits) || spec_is_infinite(bits)),
{
    is_nan(bits) || is_infinite(bits)
}

/// `a == b` on binary64 values.
pub fn float_eq(a: u64, b: u64) -> (r: bool)
    ensures
        r == spec_eq(a, b),
{
    !is_nan(a) && !is_nan(b) && rank_of(a) == rank_of(b)
}

/// `a < b` on binary64 values.
pub fn float_lt(a: u64, b: u64) -> (r: bool)
    ensures
        r == spec_lt(a, b),
{
    !is_nan(a) && !is_nan(b) && rank_of(a) < rank_of(b)
}

/// `a > b` on binary64 values.
pub fn float_gt(a: u64, b: u64) -> (r: bool)
    ensures
        r == spec_gt(a, b),
{
    float_lt(b, a)
}

/// The absolute value: the pattern with its sign bit cleared.
pub fn abs(bits: u64) -> (r: u64)
    ensures
        r == magnitude(bits),
{
    magnitude_of(bits)
}

/// `1.0` for a value above zero, `-1.0` for one below zero, and positive
/// zero otherwise (zeros and NaNs).
pub fn sign(v: u64) -> (r: u64)
    ensures
        r == spec_sign(v),
{
    if float_gt(v, ZERO_BITS) {
        return ONE_BITS;
    }
    if float_lt(v, ZERO_BITS) {
        return MINUS_ONE_BITS;
    }
    ZERO_BITS
}

/// The larger of `|a|` and `|b|`; `|b|` unless `|a|` is strictly larger.
pub fn max_abs(a: u64, b: u64) -> (r: u64)
    ensures
        r == spec_max_abs(a, b),
{
    if float_gt(abs(a), abs(b)) {
        return abs(a);
    }
    abs(b)
}

/// The smaller of `|a|` and `|b|`; `|b|` unless `|a|` is strictly smaller.
pub fn min_abs(a: u64, b: u64) -> (r: u64)
    ensures
        r == spec_min_abs(a, b),
{
    if float_lt(abs(a), abs(b)) {
        return abs(a);
    }
    abs(b)
}

/// The pattern with its sign bit flipped: the negated value.
pub open spec fn negated(b: u64) -> u64 {
    if b >= SIGN_BIT {
        (b - SIGN_BIT) as u64
    } else {
        (b + SIGN_BIT) as u64
    }
}

/// On values that are not NaN, `<` and `==` order the extended reals: one
/// and only one of `a < b`, `a == b`, `a > b` holds, and `<` is transitive.
pub proof fn lemma_order_total(a: u64, b: u64, c: u64)
    requires
        !spec_is_nan(a),
        !spec_is_nan(b),
        !spec_is_nan(c),
    ensures
        spec_lt(a, b) || spec_eq(a, b) || spec_gt(a, b),
        !(spec_lt(a, b) && spec_eq(a, b)),
        !(spec_lt(a, b) && spec_gt(a, b)),
        !(spec_eq(a, b) && spec_gt(a, b)),
        spec_lt(a, b) && spec_lt(b, c) ==> spec_lt(a, c),
{
}

/// Positive and negative zero are equal; a NaN equals nothing, itself
/// included.
pub proof fn lemma_zeros_equal_nan_unequal(v: u64)
    requires
        spec_is_nan(v),
    ensures
        spec_eq(ZERO_BITS, SIGN_BIT),
        !spec_eq(v, v),
{
}

/// `sign` takes one of three values, and is odd: negating a value that is
/// not NaN negates its sign, zero staying positive zero.
pub proof fn lemma_sign_odd(v: u64)
    requires
        !spec_is_nan(v),
    ensures
        spec_sign(v) == ONE_BITS || spec_sign(v) == MINUS_ONE_BITS || spec_sign(v) == ZERO_BITS,
        spec_sign(v) == ONE_BITS ==> spec_sign(negated(v)) == MINUS_ONE_BITS,
        spec_sign(v) == MINUS_ONE_BITS ==> spec_sign(negated(v)) == ONE_BITS,
        spec_sign(v) == ZERO_BITS ==> spec_sign(negated(v)) == ZERO_BITS,
{
}

/// `abs` is not negative and does not depend on the sign of its argument.
pub proof fn lemma_abs_even(v: u64)
    ensures
        magnitude(negated(v)) == magnitude(v),
        rank(magnitude(v) as u64) == magnitude(v),
        magnitude(v) >= 0,
{
}

/// On values that are not NaN, `min_abs` is symmetric and gives the smaller
/// of the two absolute values.
pub proof fn lemma_min_abs_symmetric(a: u64, b: u64)
    requires
        !spec_is_nan(a),
        !spec_is_nan(b),
    ensures
        spec_min_abs(a, b) == spec_min_abs(b, a),
        spec_min_abs(a, b) as int == if magnitude(a) < magnitude(b) {
            magnitude(a)
        } else {
            magnitude(b)
        },
{
}

/// On values that are not NaN, `max_abs` is symmetric and gives the larger
/// of the two absolute values; it is never below `min_abs`.
pub proof fn lemma_max_abs_symmetric(a: u64, b: u64)
    requires
        !spec_is_nan(a),
        !spec_is_nan(b),
    ensures
        spec_max_abs(a, b) == spec_max_abs(b, a),
        spec_max_abs(a, b) as int == if magnitude(a) > magnitude(b) {
            magnitude(a)
        } else {
            magnitude(b)
        },
        spec_min_abs(a, b) <= spec_max_abs(a, b),
{
}

/// `sign` is `1.0` exactly on values above zero, `-1.0` exactly on values
/// below zero, and positive zero on both zeros and on NaNs.
pub proof fn lemma_sign_by_position(v: u64)
    ensures
        !spec_is_nan(v) && rank(v) > 0 ==> spec_sign(v) == ONE_BITS,
        !spec_is_nan(v) && rank(v) < 0 ==> spec_sign(v) == MINUS_ONE_BITS,
        !spec_is_nan(v) && rank(v) == 0 ==> spec_sign(v) == ZERO_BITS,
        spec_is_nan(v) ==> spec_sign(v) == ZERO_BITS,
{
}

/// `abs`, `min_abs` and `max_abs` give the magnitude bits: `abs(v)` has the
/// rank of `|v|`, and `min_abs`/`max_abs` are one of `|a|`, `|b|` with no
/// smaller (resp. larger) magnitude left out.
pub proof fn lemma_magnitudes(a: u64, b: u64)
    requires
        !spec_is_nan(a),
        !spec_is_nan(b),
    ensures
        rank(magnitude(a) as u64) == if rank(a) < 0 { -rank(a) } else { rank(a) },
        spec_min_abs(a, b) as int == magnitude(a) || spec_min_abs(a, b) as int == magnitude(b),
        spec_min_abs(a, b) <= magnitude(a) && spec_min_abs(a, b) <= magnitude(b),
        spec_max_abs(a, b) as int == magnitude(a) || spec_max_abs(a, b) as int == magnitude(b),
        spec_max_abs(a, b) >= magnitude(a) && spec_max_abs(a, b) >= magnitude(b),
{
}

/// The comparisons follow the position of the values on the extended real
/// line, and every comparison with a NaN is false.
pub proof fn lemma_comparisons_by_position(a: u64, b: u64)
    ensures
        !spec_is_nan(a) && !spec_is_nan(b) ==> (spec_lt(a, b) <==> rank(a) < rank(b)),
        !spec_is_nan(a) && !spec_is_nan(b) ==> (spec_gt(a, b) <==> rank(a) > rank(b)),
        !spec_is_nan(a) && !spec_is_nan(b) ==> (spec_eq(a, b) <==> rank(a) == rank(b)),
        spec_is_nan(a) || spec_is_nan(b) ==> !spec_lt(a, b) && !spec_gt(a, b) && !spec_eq(a, b),
        !spec_lt(a, a) && (spec_eq(a, a) <==> !spec_is_nan(a)),
        spec_lt(a, b) ==> !spec_lt(b, a),
{
}

/// Exactly one of NaN, infinite and finite holds of every pattern.
pub proof fn lemma_classification(b: u64)
    ensures
        spec_is_nan(b) || spec_is_infinite(b) || spec_is_finite(b),
        !(spec_is_nan(b) && spec_is_infinite(b)),
        spec_is_finite(b) <==> !spec_is_nan(b) && !spec_is_infinite(b),
        spec_is_infinite(b) ==> (rank(b) == INFINITY_BITS || rank(b) == -INFINITY_BITS),
        spec_is_finite(b) ==> -INFINITY_BITS < rank(b) < INFINITY_BITS,
{
}

} // verus!

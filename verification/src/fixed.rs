//! Fixed-point micro-units.
//!
//! Every fractional quantity in this crate — smoothing coefficients,
//! baselines, normalized deviations, slopes, thresholds — is an integer
//! count of millionths ([`FP_SCALE`] steps per whole unit). All arithmetic
//! on them is exact integer arithmetic, so contracts can state results to
//! the last unit.

use vstd::prelude::*;

verus! {

/// Fixed-point steps per whole unit: values are counts of millionths.
pub const FP_SCALE: i64 = 1_000_000;

/// Division rounding toward zero, as Rust's `/` computes it on signed
/// integers; meaningful for `b > 0`.
pub open spec fn div_trunc(a: int, b: int) -> int {
    if a >= 0 {
        a / b
    } else {
        -((-a) / b)
    }
}

/// Truncating division never moves a bound: a dividend between `lo * b`
/// and `hi * b` has its quotient between `lo` and `hi`.
pub proof fn lemma_div_trunc_bounded(a: int, b: int, lo: int, hi: int)
    requires
        b > 0,
        lo <= 0 <= hi,
        lo * b <= a <= hi * b,
    ensures
        lo <= div_trunc(a, b) <= hi,
{
    if a >= 0 {
        vstd::arithmetic::div_mod::lemma_div_is_ordered(a, hi * b, b);
        vstd::arithmetic::div_mod::lemma_div_by_multiple(hi, b);
        vstd::arithmetic::div_mod::lemma_div_pos_is_pos(a, b);
    } else {
        assert(-a <= (-lo) * b) by (nonlinear_arith)
            requires
                lo * b <= a,
        ;
        vstd::arithmetic::div_mod::lemma_div_is_ordered(-a, (-lo) * b, b);
        vstd::arithmetic::div_mod::lemma_div_by_multiple(-lo, b);
        vstd::arithmetic::div_mod::lemma_div_pos_is_pos(-a, b);
    }
}

/// Truncating division by a positive divisor never grows the magnitude.
pub proof fn lemma_div_trunc_magnitude(a: int, b: int)
    requires
        b >= 1,
    ensures
        -vstd::math::abs(a) <= div_trunc(a, b) <= vstd::math::abs(a),
{
    let m = vstd::math::abs(a) as int;
    assert(m * b >= m) by (nonlinear_arith)
        requires
            b >= 1,
            m >= 0,
    ;
    assert((-m) * b == -(m * b)) by (nonlinear_arith);
    lemma_div_trunc_bounded(a, b, -m, m);
}

/// Scaling by a whole factor and dividing it out is the identity.
pub proof fn lemma_div_trunc_exact(x: int, b: int)
    requires
        b > 0,
    ensures
        div_trunc(x * b, b) == x,
{
    if x * b >= 0 {
        vstd::arithmetic::div_mod::lemma_div_multiples_vanish(x, b);
        assert(b * x == x * b) by (nonlinear_arith);
    } else {
        assert(-(x * b) == (-x) * b) by (nonlinear_arith);
        vstd::arithmetic::div_mod::lemma_div_multiples_vanish(-x, b);
        assert(b * -x == (-x) * b) by (nonlinear_arith);
    }
}

} // verus!

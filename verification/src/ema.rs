//! Per-zone exponential-moving-average baseline.
//!
//! One instance per logical zone smooths the raw readings: a first-order
//! IIR low-pass filter whose smoothing coefficient `alpha` lies between 0
//! and 1 (in micro-units, between 0 and [`FP_SCALE`]). A smaller `alpha`
//! adapts more slowly. The average is absent until the first update.

use crate::fixed::{div_trunc, lemma_div_trunc_bounded, lemma_div_trunc_exact, FP_SCALE};
use vstd::prelude::*;

verus! {

/// One filter step: the convex combination `avg * (1 - alpha) + x * alpha`
/// in micro-units, rounded toward zero.
pub open spec fn spec_ema_step(avg: int, x: int, alpha: int) -> int {
    div_trunc(avg * (FP_SCALE - alpha) + x * alpha, FP_SCALE as int)
}

/// A filter step stays within the interval spanned by its two inputs'
/// magnitudes, so it never leaves the value range of its operands.
pub proof fn lemma_ema_step_in_range(avg: int, x: int, alpha: int, lo: int, hi: int)
    requires
        0 <= alpha <= FP_SCALE,
        lo <= 0 <= hi,
        lo <= avg <= hi,
        lo <= x <= hi,
    ensures
        lo <= spec_ema_step(avg, x, alpha) <= hi,
{
    let num = avg * (FP_SCALE - alpha) + x * alpha;
    assert(lo * (FP_SCALE as int) <= num <= hi * (FP_SCALE as int)) by (nonlinear_arith)
        requires
            0 <= alpha <= FP_SCALE,
            lo <= avg <= hi,
            lo <= x <= hi,
            num == avg * (FP_SCALE - alpha) + x * alpha,
    ;
    lemma_div_trunc_bounded(num, FP_SCALE as int, lo, hi);
}

/// With a full smoothing coefficient (`alpha` = 1) the filter has no
/// memory: each step returns the newest input exactly.
pub proof fn lemma_ema_step_full_alpha(avg: int, x: int)
    ensures
        spec_ema_step(avg, x, FP_SCALE as int) == x,
{
    assert(avg * (FP_SCALE - FP_SCALE) == 0) by (nonlinear_arith);
    lemma_div_trunc_exact(x, FP_SCALE as int);
}

/// With a zero smoothing coefficient the filter never moves: each step
/// returns the previous average exactly.
pub proof fn lemma_ema_step_zero_alpha(avg: int, x: int)
    ensures
        spec_ema_step(avg, x, 0) == avg,
{
    assert(x * 0 == 0) by (nonlinear_arith);
    lemma_div_trunc_exact(avg, FP_SCALE as int);
}

/// Exponential-moving-average state for one logical zone.
#[derive(Debug, Clone, Copy)]
pub struct ExponentialAverage {
    alpha: i64,
    current_average: Option<i64>,
}

impl ExponentialAverage {
    /// The smoothing coefficient, in micro-units.
    pub closed spec fn spec_alpha(self) -> int {
        self.alpha as int
    }

    /// The current baseline estimate in micro-units, absent until the
    /// first update.
    pub closed spec fn spec_average(self) -> Option<int> {
        match self.current_average {
            Some(avg) => Some(avg as int),
            None => None,
        }
    }

    /// The smoothing coefficient stays in `[0, 1]` (in micro-units).
    pub open spec fn wf(self) -> bool {
        0 <= self.spec_alpha() <= FP_SCALE
    }

    /// A fresh filter with no baseline yet.
    ///
    /// The coefficient must lie between 0 and 1 in micro-units; out-of-range
    /// coefficients are rejected at this boundary rather than carried along.
    pub fn new(alpha: i64) -> (r: Self)
        requires
            0 <= alpha <= FP_SCALE,
        ensures
            r.wf(),
            r.spec_alpha() == alpha,
            r.spec_average() is None,
    {
        ExponentialAverage { alpha, current_average: None }
    }

    /// Feeds one reading into the filter: the first reading becomes the
    /// average; every later one moves the average by one filter step.
    pub fn update(&mut self, new_value: i64)
        requires
            old(self).wf(),
        ensures
            final(self).wf(),
            final(self).spec_alpha() == old(self).spec_alpha(),
            final(self).spec_average() == (match old(self).spec_average() {
                None => Some(new_value as int),
                Some(avg) => Some(spec_ema_step(avg, new_value as int, old(self).spec_alpha())),
            }),
    {
        self.current_average = Some(
            match self.current_average {
                None => new_value,
                Some(avg) => ema_step(avg, new_value, self.alpha),
            },
        );
    }

    /// The current baseline estimate, absent until the first update.
    pub fn get_average(&self) -> (r: Option<i64>)
        ensures
            r is Some <==> self.spec_average() is Some,
            r matches Some(avg) ==> self.spec_average() == Some(avg as int),
    {
        self.current_average
    }
}

/// One executable filter step; exact per [`spec_ema_step`].
fn ema_step(avg: i64, x: i64, alpha: i64) -> (r: i64)
    requires
        0 <= alpha <= FP_SCALE,
    ensures
        r == spec_ema_step(avg as int, x as int, alpha as int),
{
    proof {
        lemma_ema_step_in_range(avg as int, x as int, alpha as int, i64::MIN as int, i64::MAX as int);
        assert((i64::MIN as int) * (FP_SCALE as int) <= (avg as int) * ((FP_SCALE - alpha) as int)
            <= (i64::MAX as int) * (FP_SCALE as int)) by (nonlinear_arith)
            requires
                0 <= alpha <= FP_SCALE,
                i64::MIN <= avg <= i64::MAX,
        ;
        assert((i64::MIN as int) * (FP_SCALE as int) <= (x as int) * (alpha as int) <= (i64::MAX
            as int) * (FP_SCALE as int)) by (nonlinear_arith)
            requires
                0 <= alpha <= FP_SCALE,
                i64::MIN <= x <= i64::MAX,
        ;
    }
    let num: i128 = (avg as i128) * ((FP_SCALE - alpha) as i128) + (x as i128) * (alpha as i128);
    let q: i128 = num / (FP_SCALE as i128);
    q as i64
}

} // verus!

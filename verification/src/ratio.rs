//! Exact non-negative rationals for performance values.
//!
//! A performance is an interest-to-principal ratio; as a percentage it is
//! 100 times the ratio's value. Two ratios are compared exactly by
//! cross-multiplication, which scale factors cancel out of, so the maxima
//! tie sets downstream mean exact value equality, never an approximation.

use vstd::prelude::*;

verus! {

/// The quotient `num / den` as an exact non-negative rational.
/// Well-formed values have a positive denominator.
#[derive(Clone, Copy, PartialEq, Eq, Structural, Debug)]
pub struct Ratio {
    pub num: u64,
    pub den: u64,
}

impl Ratio {
    pub open spec fn wf(self) -> bool {
        self.den > 0
    }
}

/// The ratio with value zero.
pub open spec fn spec_zero_ratio() -> Ratio {
    Ratio { num: 0, den: 1 }
}

/// `a > b` as rational values; meaningful when both denominators are positive.
pub open spec fn ratio_val_gt(a: Ratio, b: Ratio) -> bool {
    a.num * b.den > b.num * a.den
}

/// `a == b` as rational values; meaningful when both denominators are positive.
pub open spec fn ratio_val_eq(a: Ratio, b: Ratio) -> bool {
    a.num * b.den == b.num * a.den
}

/// `a >= b` as rational values; meaningful when both denominators are positive.
pub open spec fn ratio_val_ge(a: Ratio, b: Ratio) -> bool {
    a.num * b.den >= b.num * a.den
}

pub proof fn lemma_ratio_ge_trans(a: Ratio, b: Ratio, c: Ratio)
    by (nonlinear_arith)
    requires
        a.wf(),
        b.wf(),
        c.wf(),
        ratio_val_ge(a, b),
        ratio_val_ge(b, c),
    ensures
        ratio_val_ge(a, c),
{
}

pub proof fn lemma_ratio_eq_ge_trans(a: Ratio, b: Ratio, c: Ratio)
    by (nonlinear_arith)
    requires
        a.wf(),
        b.wf(),
        c.wf(),
        ratio_val_eq(a, b),
        ratio_val_ge(b, c),
    ensures
        ratio_val_ge(a, c),
{
}

/// The product of two 64-bit values fits in 128 bits.
pub proof fn lemma_u64_mul_fits(x: u64, y: u64)
    by (nonlinear_arith)
    ensures
        0 <= x * y <= u64::MAX * u64::MAX,
        x * y <= u128::MAX,
{
}

/// Multiplication of non-negative values is monotone in both factors.
pub proof fn lemma_mul_le(x: int, y: int, xm: int, ym: int)
    by (nonlinear_arith)
    requires
        0 <= x <= xm,
        0 <= y <= ym,
    ensures
        0 <= x * y <= xm * ym,
{
}

/// Exact value comparison `a > b` by cross-multiplication.
pub fn ratio_gt(a: &Ratio, b: &Ratio) -> (r: bool)
    ensures
        r == ratio_val_gt(*a, *b),
{
    proof {
        lemma_u64_mul_fits(a.num, b.den);
        lemma_u64_mul_fits(b.num, a.den);
    }
    (a.num as u128) * (b.den as u128) > (b.num as u128) * (a.den as u128)
}

/// Exact value comparison `a == b` by cross-multiplication.
pub fn ratio_eq(a: &Ratio, b: &Ratio) -> (r: bool)
    ensures
        r == ratio_val_eq(*a, *b),
{
    proof {
        lemma_u64_mul_fits(a.num, b.den);
        lemma_u64_mul_fits(b.num, a.den);
    }
    (a.num as u128) * (b.den as u128) == (b.num as u128) * (a.den as u128)
}

/// The ratio as a percentage in millionths, rounded toward zero: the value
/// of `num * 100_000_000 / den`, an integer number of millionths of a
/// percent. This fixed-point view is for display and trend comparison; the
/// maxima logic never uses it.
pub open spec fn spec_scaled_percent(a: Ratio) -> int {
    (a.num * 100_000_000) as int / a.den as int
}

/// Computes `spec_scaled_percent` exactly in 128-bit arithmetic.
pub fn scaled_percent(a: &Ratio) -> (r: u128)
    requires
        a.wf(),
    ensures
        r == spec_scaled_percent(*a),
{
    proof {
        lemma_u64_mul_fits(a.num, 100_000_000);
        lemma_scaled_percent_bound(*a);
    }
    (a.num as u128) * 100_000_000 / (a.den as u128)
}

/// The scaled percentage of a well-formed ratio fits well below 2^128.
pub proof fn lemma_scaled_percent_bound(a: Ratio)
    by (nonlinear_arith)
    requires
        a.wf(),
    ensures
        0 <= spec_scaled_percent(a) <= a.num * 100_000_000,
{
}

} // verus!

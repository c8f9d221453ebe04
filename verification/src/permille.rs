//! Fixed-point factors. A factor is a whole number of thousandths: 1150 stands
//! for 1.15. Scaling by a factor is exact integer arithmetic.

use vstd::prelude::*;

verus! {

/// The number of thousandths in one.
pub const ONE: u64 = 1000;

/// `value` times `factor` thousandths, rounded to the nearest whole number,
/// a half rounding up.
pub open spec fn scaled_round(value: nat, factor: nat) -> nat {
    (value * factor + 500) / 1000
}

/// `value` times `factor` thousandths, rounded down.
pub open spec fn scaled_floor(value: nat, factor: nat) -> nat {
    (value * factor) / 1000
}

/// A product of two bounded numbers is bounded by the product of the bounds.
pub proof fn lemma_product_bound(a: nat, b: nat, a_max: nat, b_max: nat)
    by (nonlinear_arith)
    requires
        a <= a_max,
        b <= b_max,
    ensures
        a * b <= a_max * b_max,
{
}

/// Scaling grows with the value and with the factor.
pub proof fn lemma_scaled_round_monotonic(value: nat, factor: nat, value_max: nat, factor_max: nat)
    requires
        value <= value_max,
        factor <= factor_max,
    ensures
        scaled_round(value, factor) <= scaled_round(value_max, factor_max),
{
    lemma_product_bound(value, factor, value_max, factor_max);
}

/// Scales `value` by `factor` thousandths and rounds to the nearest whole
/// number.
pub fn scale_round(value: u128, factor: u64) -> (scaled: u128)
    requires
        value * factor + 500 <= u128::MAX,
    ensures
        scaled == scaled_round(value as nat, factor as nat),
{
    (value * (factor as u128) + 500) / 1000
}

/// Scales `value` by `factor` thousandths and rounds down.
pub fn scale_floor(value: u128, factor: u64) -> (scaled: u128)
    requires
        value * factor <= u128::MAX,
    ensures
        scaled == scaled_floor(value as nat, factor as nat),
{
    (value * (factor as u128)) / 1000
}

} // verus!

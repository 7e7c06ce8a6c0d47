//! Small arithmetic facts shared by the fixed-point proofs.
use vstd::arithmetic::div_mod::*;
use vstd::arithmetic::mul::*;
use vstd::prelude::*;

verus! {

/// `x * y / d` for operands whose product fits in 128 bits.
pub fn mul_div(x: u128, y: u128, d: u128) -> (r: u128)
    requires
        d > 0,
        x * y <= u128::MAX,
    ensures
        r as int == (x as int * y as int) / (d as int),
{
    (x * y) / d
}

pub proof fn lemma_mul_le(x: int, y: int, xb: int, yb: int)
    requires
        0 <= x <= xb,
        0 <= y <= yb,
    ensures
        0 <= x * y <= xb * yb,
{
    lemma_mul_upper_bound(x, xb, y, yb);
    lemma_mul_nonnegative(x, y);
}

/// A fraction `f / d` of `x` with `f <= d` is at most `x`.
pub proof fn lemma_scaled_le(x: int, f: int, d: int)
    requires
        0 <= x,
        0 <= f <= d,
        0 < d,
    ensures
        0 <= x * f / d <= x,
{
    lemma_mul_le(x, f, x, d);
    lemma_div_is_ordered(x * f, x * d, d);
    lemma_div_multiples_vanish(x, d);
    lemma_div_pos_is_pos(x * f, d);
}

pub proof fn lemma_div_le(x: int, y: int, d: int)
    requires
        0 <= x <= y,
        0 < d,
    ensures
        0 <= x / d <= y / d,
{
    lemma_div_is_ordered(x, y, d);
    lemma_div_pos_is_pos(x, d);
}

pub proof fn lemma_div_le_self(x: int, d: int)
    requires
        0 <= x,
        0 < d,
    ensures
        0 <= x / d <= x,
{
    lemma_div_pos_is_pos(x, d);
    if d > 1 && x > 0 {
        lemma_div_decreases(x, d);
    }
}

} // verus!

//! Linear rescaling of intensities into the range the classifier expects.
//!
//! Every value is fixed point in thousandths: the intensity 1.0 is
//! [`FIXED_ONE`], and the standard mean and scale of one half are
//! [`NORM_MEAN`] and [`NORM_SCALE`]. A raw value `r` normalizes to
//! `(r - mean) * FIXED_ONE / scale`, the quotient taken as Euclidean
//! (flooring) division; on the binary board intensities with the standard
//! parameters the division is exact and the outputs are `-FIXED_ONE` and
//! `FIXED_ONE`.

use vstd::prelude::*;

verus! {

use crate::FIXED_ONE;
use vstd::arithmetic::div_mod::{
    lemma_div_multiples_vanish,
    lemma_div_nonincreasing,
    lemma_fundamental_div_mod,
    lemma_fundamental_div_mod_converse,
    lemma_mod_pos_bound,
};
use vstd::arithmetic::mul::lemma_mul_is_commutative;

/// Fixed-point mean of one half used by the standard pipeline.
pub const NORM_MEAN: i32 = 500;

/// Fixed-point scale of one half used by the standard pipeline.
pub const NORM_SCALE: i32 = 500;

/// Largest magnitude the normalizer accepts for raw values and for the
/// mean and scale parameters; keeps every intermediate product within `i32`.
pub const NORM_LIMIT: i32 = 1000000;

/// What one raw fixed-point value normalizes to: the offset from the mean,
/// rescaled into thousandths of the scale, rounded toward negative infinity.
pub open spec fn norm_value(raw: int, mean: int, scale: int) -> int {
    (raw - mean) * FIXED_ONE / scale
}

/// For a positive divisor, the floor of a negative fraction is the negated
/// ceiling of its magnitude: `(-a) / s == -((a + s - 1) / s)`.
proof fn lemma_div_negative_numerator(a: int, s: int)
    requires
        1 <= a,
        1 <= s,
    ensures
        (-a) / s == -((a + s - 1) / s),
{
    let q = a / s;
    let r = a % s;
    lemma_fundamental_div_mod(a, s);
    lemma_mod_pos_bound(a, s);
    lemma_mul_is_commutative(s, q);
    if r == 0 {
        assert(-a == (-q) * s + 0) by (nonlinear_arith)
            requires
                a == q * s,
        ;
        lemma_fundamental_div_mod_converse(-a, s, -q, 0);
        assert(a + s - 1 == q * s + (s - 1));
        lemma_fundamental_div_mod_converse(a + s - 1, s, q, s - 1);
    } else {
        assert(-a == (-q - 1) * s + (s - r)) by (nonlinear_arith)
            requires
                a == q * s + r,
        ;
        lemma_fundamental_div_mod_converse(-a, s, -q - 1, s - r);
        assert(a + s - 1 == (q + 1) * s + (r - 1)) by (nonlinear_arith)
            requires
                a == q * s + r,
        ;
        lemma_fundamental_div_mod_converse(a + s - 1, s, q + 1, r - 1);
    }
}

/// Normalizes one raw value: subtracts the mean and rescales by the scale,
/// in fixed point, flooring the quotient.
pub fn normalize_value(raw: i32, mean: i32, scale: i32) -> (v: i32)
    requires
        1 <= scale <= NORM_LIMIT,
        -NORM_LIMIT <= mean <= NORM_LIMIT,
        -NORM_LIMIT <= raw <= NORM_LIMIT,
    ensures
        v == norm_value(raw as int, mean as int, scale as int),
{
    let d: i32 = raw - mean;
    if d >= 0 {
        let n: i32 = d * FIXED_ONE;
        let q: u32 = (n as u32) / (scale as u32);
        proof {
            lemma_div_nonincreasing(n as int, scale as int);
        }
        q as i32
    } else {
        let m: i32 = -d;
        let n: i32 = m * FIXED_ONE;
        let num: u32 = (n as u32) + (scale as u32) - 1;
        let q: u32 = num / (scale as u32);
        proof {
            lemma_div_nonincreasing(num as int, scale as int);
            lemma_div_negative_numerator(n as int, scale as int);
        }
        -(q as i32)
    }
}

/// Normalizes a whole sample elementwise; the output is a fresh sequence of
/// the same length.
pub fn normalize(raw: &Vec<i32>, mean: i32, scale: i32) -> (out: Vec<i32>)
    requires
        1 <= scale <= NORM_LIMIT,
        -NORM_LIMIT <= mean <= NORM_LIMIT,
        forall|i: int| 0 <= i < raw@.len() ==> -NORM_LIMIT <= #[trigger] raw@[i] <= NORM_LIMIT,
    ensures
        out@.len() == raw@.len(),
        forall|i: int|
            0 <= i < raw@.len() ==> #[trigger] out@[i] == norm_value(
                raw@[i] as int,
                mean as int,
                scale as int,
            ),
{
    let mut out: Vec<i32> = Vec::new();
    let mut i: usize = 0;
    while i < raw.len()
        invariant
            i <= raw@.len(),
            out@.len() == i,
            1 <= scale <= NORM_LIMIT,
            -NORM_LIMIT <= mean <= NORM_LIMIT,
            forall|k: int| 0 <= k < raw@.len() ==> -NORM_LIMIT <= #[trigger] raw@[k] <= NORM_LIMIT,
            forall|k: int|
                0 <= k < i ==> #[trigger] out@[k] == norm_value(
                    raw@[k] as int,
                    mean as int,
                    scale as int,
                ),
        decreases raw@.len() - i,
    {
        let v = normalize_value(raw[i], mean, scale);
        out.push(v);
        i = i + 1;
    }
    out
}

/// Normalization is linear and invertible: multiplying a normalized value by
/// the scale, rescaling out of thousandths and adding back the mean recovers
/// the raw value, whenever the fixed-point division was exact.
pub proof fn lemma_normalize_invertible(raw: int, mean: int, scale: int)
    requires
        1 <= scale,
        ((raw - mean) * FIXED_ONE) % scale == 0,
    ensures
        norm_value(raw, mean, scale) * scale / (FIXED_ONE as int) + mean == raw,
{
    let n = (raw - mean) * FIXED_ONE;
    let v = n / scale;
    lemma_fundamental_div_mod(n, scale);
    lemma_mul_is_commutative(scale, v);
    assert(v * scale == n);
    lemma_mul_is_commutative(raw - mean, FIXED_ONE as int);
    lemma_div_multiples_vanish(raw - mean, FIXED_ONE as int);
    assert(n / (FIXED_ONE as int) == raw - mean);
}

} // verus!

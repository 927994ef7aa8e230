//! The fixed-point sample model shared by every component.
//!
//! A sample is an `i64` counting units of `1 / SAMPLE_SCALE`; the nominal
//! full-scale value `1.0` is `SAMPLE_SCALE`. Every sample the library stores
//! or emits stays within `[-SAMPLE_LIMIT, SAMPLE_LIMIT]`; results of scaling
//! that would leave that range are clamped to it, and the library prefers the
//! clamped value over failing.

use vstd::arithmetic::div_mod::{
    lemma_div_is_ordered, lemma_div_multiples_vanish, lemma_div_nonincreasing,
    lemma_div_pos_is_pos,
};
use vstd::prelude::*;

verus! {

/// Number of fixed-point units in the nominal full-scale sample `1.0`.
pub const SAMPLE_SCALE: i64 = 0x100_0000;

/// Largest magnitude a stored sample or amplitude may have (128 times full
/// scale); scaling results are clamped to this range.
pub const SAMPLE_LIMIT: i64 = 0x8000_0000;

/// Whether `x` is a representable sample (or amplitude) value.
pub open spec fn sample_in_range(x: int) -> bool {
    -(SAMPLE_LIMIT as int) <= x <= SAMPLE_LIMIT as int
}

/// Integer division rounding toward zero, the rounding the library uses when
/// it removes a fixed-point scale factor.
pub open spec fn div_toward_zero(n: int, d: int) -> int {
    if n >= 0 {
        n / d
    } else {
        -((-n) / d)
    }
}

/// The fixed-point product of a sample `x` and an amplitude `a`: the real
/// product carries a factor `SAMPLE_SCALE` too many, which is divided back
/// out (rounding toward zero).
pub open spec fn scaled(x: int, a: int) -> int {
    div_toward_zero(x * a, SAMPLE_SCALE as int)
}

/// `x` clamped to the representable sample range.
pub open spec fn clamped(x: int) -> int {
    if x < -(SAMPLE_LIMIT as int) {
        -(SAMPLE_LIMIT as int)
    } else if x > SAMPLE_LIMIT as int {
        SAMPLE_LIMIT as int
    } else {
        x
    }
}

/// What applying an amplitude `a` to a sample `x` yields: the fixed-point
/// product, clamped to the representable range.
pub open spec fn gain_sample(x: int, a: int) -> int {
    clamped(scaled(x, a))
}

/// Exec division rounding toward zero; `n == i64::MIN` is excluded so that
/// the magnitude `-n` exists.
pub fn div_toward_zero_i64(n: i64, d: i64) -> (r: i64)
    requires
        d >= 1,
        n > i64::MIN,
    ensures
        r == div_toward_zero(n as int, d as int),
{
    if n >= 0 {
        let q: u64 = (n as u64) / (d as u64);
        proof {
            lemma_div_pos_is_pos(n as int, d as int);
            lemma_div_nonincreasing(n as int, d as int);
        }
        q as i64
    } else {
        let m: u64 = (-n) as u64;
        let q: u64 = m / (d as u64);
        proof {
            lemma_div_pos_is_pos(m as int, d as int);
            lemma_div_nonincreasing(m as int, d as int);
        }
        -(q as i64)
    }
}

/// `x` clamped to the representable sample range.
pub fn clamp_sample(x: i64) -> (r: i64)
    ensures
        r == clamped(x as int),
        sample_in_range(r as int),
{
    if x < -SAMPLE_LIMIT {
        -SAMPLE_LIMIT
    } else if x > SAMPLE_LIMIT {
        SAMPLE_LIMIT
    } else {
        x
    }
}

/// Applies the amplitude `a` to the sample `x`.
pub fn apply_gain_sample(x: i64, a: i64) -> (r: i64)
    requires
        sample_in_range(x as int),
        sample_in_range(a as int),
    ensures
        r == gain_sample(x as int, a as int),
        sample_in_range(r as int),
{
    proof {
        assert(-0x4000_0000_0000_0000 <= x * a <= 0x4000_0000_0000_0000) by (nonlinear_arith)
            requires
                -0x8000_0000 <= x <= 0x8000_0000,
                -0x8000_0000 <= a <= 0x8000_0000,
        ;
    }
    let p: i64 = x * a;
    let q: i64 = div_toward_zero_i64(p, SAMPLE_SCALE);
    clamp_sample(q)
}

/// Law: a zero amplitude yields silence, whatever the sample.
pub proof fn lemma_gain_zero_is_silence(x: int)
    ensures
        gain_sample(x, 0) == 0,
{
    assert(x * 0 == 0);
    assert(div_toward_zero(0, SAMPLE_SCALE as int) == 0);
}

/// Law: the unit amplitude (`SAMPLE_SCALE`, the fixed-point `1.0`) leaves
/// every representable sample unchanged.
pub proof fn lemma_gain_unit_is_identity(x: int)
    requires
        sample_in_range(x),
    ensures
        gain_sample(x, SAMPLE_SCALE as int) == x,
{
    let s = SAMPLE_SCALE as int;
    if x >= 0 {
        lemma_div_multiples_vanish(x, s);
        assert(x * s == s * x) by (nonlinear_arith);
        assert(div_toward_zero(x * s, s) == x);
    } else {
        lemma_div_multiples_vanish(-x, s);
        assert(-(x * s) == s * (-x)) by (nonlinear_arith);
        assert(div_toward_zero(x * s, s) == -((-(x * s)) / s));
        assert(div_toward_zero(x * s, s) == x);
    }
}

/// Bound used by callers that divide a product of bounded factors: if
/// `|n| <= b` and `d >= 1` then `|div_toward_zero(n, d)| <= b / d` rounded
/// down, and in particular at most `b`.
pub proof fn lemma_div_toward_zero_bound(n: int, d: int, b: int)
    requires
        d >= 1,
        0 <= b,
        -b <= n <= b,
    ensures
        -(b / d) <= div_toward_zero(n, d) <= b / d,
{
    if n >= 0 {
        lemma_div_is_ordered(n, b, d);
        lemma_div_pos_is_pos(n, d);
    } else {
        lemma_div_is_ordered(-n, b, d);
        lemma_div_pos_is_pos(-n, d);
    }
}

} // verus!

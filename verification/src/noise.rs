//! Gaussian noise for continuous-gene mutation, via a fixed-point
//! Box-Muller transform over two uniform draws.
//!
//! Internally values carry six fixed-point decimals (1000000 = 1.0).
//! The logarithm and cosine are truncated-series approximations; the
//! contracts state only the bounds the callers need, since the noise
//! is random in any case.

use vstd::prelude::*;
use crate::math::isqrt;
use crate::rng::Prng;

verus! {

/// ln(2) with six decimals.
pub const LN2_MICRO: u64 = 693147;

/// pi/2 with six decimals.
pub const QUARTER_TURN_MICRO: u64 = 1570796;

/// The fixed-point product is monotone in both factors.
proof fn lemma_mul_micro_bound(a: u64, b: u64, cap_a: int, cap_b: int)
    requires
        a <= cap_a,
        b <= cap_b,
        0 <= cap_a,
        0 <= cap_b,
    ensures
        (a * b) / 1000000 <= (cap_a * cap_b) / 1000000,
{
    assert(a * b <= cap_a * cap_b) by (nonlinear_arith)
        requires 0 <= a <= cap_a, 0 <= b <= cap_b,
    ;
    vstd::arithmetic::div_mod::lemma_div_is_ordered((a * b) as int, cap_a * cap_b, 1000000);
}

/// Fixed-point product with six decimals.
fn mul_micro(a: u64, b: u64) -> (r: u64)
    requires
        a <= 8000000,
        b <= 8000000,
    ensures
        r == (a * b) / 1000000,
{
    proof {
        assert(a * b <= 64000000000000) by (nonlinear_arith)
            requires a <= 8000000, b <= 8000000,
        ;
    }
    (a * b) / 1000000
}

/// -ln(u / 1000000) with six decimals, approximately, for u in
/// (0, 1000000]: the argument is normalized into [1/2, 1] by doubling
/// and the rest is a truncated artanh series.
fn neg_ln_micro(u: u64) -> (r: u64)
    requires
        1 <= u <= 1000000,
    ensures
        r <= 30000000,
{
    let mut v: u64 = u;
    let mut k: u64 = 0;
    while v < 500000 && k < 20
        invariant
            1 <= v <= 1000000,
            k <= 20,
        decreases 1000000 - v,
    {
        v = v * 2;
        k = k + 1;
    }
    let t: u64 = ((1000000 - v) * 1000000) / (1000000 + v);
    proof {
        assert((1000000 - v) * 1000000 <= 1000000000000) by (nonlinear_arith)
            requires v <= 1000000,
        ;
        assert(t <= 1000000) by {
            vstd::arithmetic::div_mod::lemma_div_is_ordered(((1000000 - v) * 1000000) as int,
                1000000000000, (1000000 + v) as int);
            vstd::arithmetic::div_mod::lemma_div_is_ordered_by_denominator(1000000000000, 1000000,
                (1000000 + v) as int);
        }
    }
    let t2: u64 = mul_micro(t, t);
    proof {
        lemma_mul_micro_bound(t, t, 1000000, 1000000);
    }
    let t3: u64 = mul_micro(t2, t);
    proof {
        lemma_mul_micro_bound(t2, t, 1000000, 1000000);
    }
    let t5: u64 = mul_micro(t3, t2);
    proof {
        lemma_mul_micro_bound(t3, t2, 1000000, 1000000);
    }
    let series: u64 = t + t3 / 3 + t5 / 5;
    k * LN2_MICRO + 2 * series
}

/// cos(x) for x in [0, pi/2], both with six decimals, by a truncated
/// Taylor polynomial; small negative results near pi/2 are possible.
fn cos_quarter_micro(x: u64) -> (r: i64)
    requires
        x <= QUARTER_TURN_MICRO,
    ensures
        -2000000 <= r <= 2000000,
{
    let x2: u64 = mul_micro(x, x);
    proof {
        lemma_mul_micro_bound(x, x, 1570796, 1570796);
    }
    let x4: u64 = mul_micro(x2, x2);
    proof {
        lemma_mul_micro_bound(x2, x2, 2467400, 2467400);
    }
    let x6: u64 = mul_micro(x4, x2);
    proof {
        lemma_mul_micro_bound(x4, x2, 6088062, 2467400);
    }
    let c: i64 = 1000000 - (x2 / 2) as i64 + (x4 / 24) as i64 - (x6 / 720) as i64;
    if c > 2000000 {
        2000000
    } else if c < -2000000 {
        -2000000
    } else {
        c
    }
}

/// cos(2 * pi * u / 1000000) with six decimals, approximately, for a
/// phase u in [0, 1000000), folded into a quarter turn.
fn cos_turn_micro(u: u64) -> (r: i64)
    requires
        u < 1000000,
    ensures
        -2000000 <= r <= 2000000,
{
    let q: u64 = u / 250000;
    let frac: u64 = u % 250000;
    proof {
        assert(frac < 250000 && q <= 3) by {
            vstd::arithmetic::div_mod::lemma_fundamental_div_mod(u as int, 250000);
        }
        assert((frac * QUARTER_TURN_MICRO) / 250000 <= QUARTER_TURN_MICRO) by {
            assert(frac * QUARTER_TURN_MICRO <= 250000 * QUARTER_TURN_MICRO)
                by (nonlinear_arith)
                requires frac <= 250000,
            ;
            vstd::arithmetic::div_mod::lemma_div_is_ordered((frac * QUARTER_TURN_MICRO) as int, (
            250000 * QUARTER_TURN_MICRO) as int, 250000);
            vstd::arithmetic::div_mod::lemma_div_by_multiple(QUARTER_TURN_MICRO as int, 250000);
        }
    }
    let x: u64 = (frac * QUARTER_TURN_MICRO) / 250000;
    if q == 0 {
        cos_quarter_micro(x)
    } else if q == 1 {
        -cos_quarter_micro(QUARTER_TURN_MICRO - x)
    } else if q == 2 {
        -cos_quarter_micro(x)
    } else {
        cos_quarter_micro(QUARTER_TURN_MICRO - x)
    }
}

/// One Gaussian draw with standard deviation `sigma` (milli-units),
/// from two independent uniform draws: sqrt(-2 ln u1) * cos(2 pi u2),
/// scaled by sigma. The first draw is taken from (0, 1] so the
/// logarithm never sees zero. The result is bounded by 16 sigma.
pub fn gaussian_milli(rng: &mut Prng, sigma: u64) -> (noise: i64)
    requires
        sigma <= 200000000000,
    ensures
        -16 * sigma <= noise <= 16 * sigma,
{
    let u1: u64 = rng.below(1000000) + 1;
    let u2: u64 = rng.below(1000000);
    let l: u64 = neg_ln_micro(u1);
    let s: u64 = isqrt(2 * l * 1000000);
    proof {
        crate::math::lemma_sqrt_floor_bounds((2 * l * 1000000) as nat);
        assert(s <= 7745967) by (nonlinear_arith)
            requires
                (s as nat) * (s as nat) <= (2 * l * 1000000) as nat,
                l <= 30000000,
        ;
    }
    let c: i64 = cos_turn_micro(u2);
    let mag_c: u64 = if c >= 0 {
        c as u64
    } else {
        (-c) as u64
    };
    proof {
        assert(s * mag_c <= 15491934000000) by (nonlinear_arith)
            requires s <= 7745967, mag_c <= 2000000,
        ;
    }
    let mag_micro: u64 = (s * mag_c) / 1000000;
    proof {
        assert(mag_micro <= 16000000) by {
            vstd::arithmetic::div_mod::lemma_div_is_ordered((s * mag_c) as int, 15491934000000,
                1000000);
        }
        assert(sigma * mag_micro <= sigma * 16000000) by (nonlinear_arith)
            requires mag_micro <= 16000000,
        ;
        assert((sigma * 16000000) / 1000000 == 16 * sigma) by {
            vstd::arithmetic::div_mod::lemma_div_by_multiple((16 * sigma) as int, 1000000);
            assert(sigma * 16000000 == (16 * sigma) * 1000000) by (nonlinear_arith);
        }
        vstd::arithmetic::div_mod::lemma_div_is_ordered((sigma * mag_micro) as int, (sigma
            * 16000000) as int, 1000000);
    }
    let mag_milli: u64 = (sigma * mag_micro) / 1000000;
    if c >= 0 {
        mag_milli as i64
    } else {
        -(mag_milli as i64)
    }
}

} // verus!

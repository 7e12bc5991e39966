//! Fixed-point scalar arithmetic.
//!
//! Every scalar quantity of the engine (seconds, beats, beats per minute,
//! parameter values, sample amplitudes) is an `i64` holding the quantity
//! times `SCALE`. Keeping all scalars inside `[-SCALAR_MAX, SCALAR_MAX]`
//! guarantees that the product of two scalars fits in an `i64`, so every
//! operation below is free of overflow.

use vstd::prelude::*;

verus! {

/// Number of fixed-point steps that make up 1.0.
pub const SCALE: i64 = 1_000_000;

/// Largest magnitude a scalar may take (2000.0 in real units). Chosen so
/// that the product of two in-range scalars fits in an `i64`.
pub const SCALAR_MAX: i64 = 2_000_000_000;

/// Largest value the metronome's accumulated beat time may take; beat time
/// saturates here instead of overflowing.
pub const TIME_MAX: i64 = 4_000_000_000_000_000_000;

pub open spec fn scalar_ok(x: int) -> bool {
    -(SCALAR_MAX as int) <= x <= SCALAR_MAX as int
}

/// Clamp into the scalar range.
pub open spec fn spec_clamp(x: int) -> int {
    if x < -(SCALAR_MAX as int) {
        -(SCALAR_MAX as int)
    } else if x > SCALAR_MAX as int {
        SCALAR_MAX as int
    } else {
        x
    }
}

/// Division truncated toward zero (the rounding of hardware signed division),
/// for a positive divisor.
pub open spec fn div_trunc(a: int, b: int) -> int
    recommends
        b > 0,
{
    if a >= 0 {
        a / b
    } else {
        -((-a) / b)
    }
}

/// The product of two scalars, scaled back down and clamped: the fixed-point
/// analogue of real multiplication.
pub open spec fn spec_mul_scale(a: int, b: int) -> int {
    spec_clamp(div_trunc(a * b, SCALE as int))
}

/// Linear interpolation from `start` toward `target` by the fraction
/// `frac / SCALE`.
pub open spec fn spec_lerp(start: int, target: int, frac: int) -> int
    recommends
        0 <= frac <= SCALE as int,
{
    start + div_trunc((target - start) * frac, SCALE as int)
}

pub fn clamp_scalar(x: i64) -> (r: i64)
    ensures
        r == spec_clamp(x as int),
        scalar_ok(r as int),
{
    if x < -SCALAR_MAX {
        -SCALAR_MAX
    } else if x > SCALAR_MAX {
        SCALAR_MAX
    } else {
        x
    }
}

/// Sum of two in-range scalars, clamped back into range.
pub fn add_clamped(a: i64, b: i64) -> (r: i64)
    requires
        scalar_ok(a as int),
        scalar_ok(b as int),
    ensures
        r == spec_clamp(a + b),
        scalar_ok(r as int),
{
    clamp_scalar(a + b)
}

/// `(a * b) / d` for nonnegative in-range factors and a positive divisor.
pub fn mul_div_nn(a: i64, b: i64, d: i64) -> (r: i64)
    requires
        0 <= a <= SCALAR_MAX,
        0 <= b <= SCALAR_MAX,
        0 < d,
    ensures
        r == (a * b) / (d as int),
        0 <= r <= a * b,
{
    let au: u64 = a as u64;
    let bu: u64 = b as u64;
    let du: u64 = d as u64;
    proof {
        assert(au * bu <= 2_000_000_000 * 2_000_000_000) by (nonlinear_arith)
            requires
                au <= 2_000_000_000,
                bu <= 2_000_000_000,
        ;
        assert(au * bu == a * b);
    }
    let p: u64 = au * bu;
    let q: u64 = p / du;
    proof {
        assert(0 <= p as int / du as int <= p as int) by (nonlinear_arith)
            requires
                p >= 0,
                du >= 1,
        ;
    }
    q as i64
}

/// Fixed-point multiplication: `a * b / SCALE`, truncated toward zero and
/// clamped into the scalar range.
pub fn mul_scale(a: i64, b: i64) -> (r: i64)
    requires
        scalar_ok(a as int),
        scalar_ok(b as int),
    ensures
        r == spec_mul_scale(a as int, b as int),
        scalar_ok(r as int),
{
    let neg: bool = (a < 0) != (b < 0);
    let am: u64 = if a >= 0 {
        a as u64
    } else {
        (-a) as u64
    };
    let bm: u64 = if b >= 0 {
        b as u64
    } else {
        (-b) as u64
    };
    proof {
        assert(am * bm <= 2_000_000_000 * 2_000_000_000) by (nonlinear_arith)
            requires
                am <= 2_000_000_000,
                bm <= 2_000_000_000,
        ;
    }
    let p: u64 = am * bm;
    let q: u64 = p / (SCALE as u64);
    proof {
        assert(0 <= p as int / (SCALE as int) <= p as int) by (nonlinear_arith)
            requires
                p >= 0,
                SCALE as int >= 1,
        ;
        if a >= 0 && b >= 0 {
            assert(p == a * b);
        } else if a < 0 && b < 0 {
            assert((-a) * (-b) == a * b) by (nonlinear_arith);
            assert(p == a * b);
        } else if a < 0 {
            assert((-a) * b == -(a * b)) by (nonlinear_arith);
            assert(p == -(a * b));
        } else {
            assert(a * (-b) == -(a * b)) by (nonlinear_arith);
            assert(p == -(a * b));
        }
    }
    let qi: i64 = q as i64;
    let r0: i64 = if neg {
        -qi
    } else {
        qi
    };
    proof {
        if a * b >= 0 {
            if p == a * b && !neg {
            } else {
                // a * b == 0 with mixed signs: p == 0 either way
                assert(p == 0);
            }
            assert(r0 == div_trunc(a * b, SCALE as int));
        } else {
            assert(neg);
            assert(r0 == div_trunc(a * b, SCALE as int));
        }
    }
    clamp_scalar(r0)
}

/// Linear interpolation `start + (target - start) * frac / SCALE`; the result
/// lies between `start` and `target`.
pub fn lerp(start: i64, target: i64, frac: i64) -> (r: i64)
    requires
        scalar_ok(start as int),
        scalar_ok(target as int),
        0 <= frac <= SCALE,
    ensures
        r == spec_lerp(start as int, target as int, frac as int),
        scalar_ok(r as int),
{
    let diff: i64 = target - start;
    let neg: bool = diff < 0;
    let dm: u64 = if diff >= 0 {
        diff as u64
    } else {
        (-diff) as u64
    };
    proof {
        assert(dm * (frac as u64) <= 4_000_000_000 * 1_000_000) by (nonlinear_arith)
            requires
                dm <= 4_000_000_000,
                frac as u64 <= 1_000_000,
        ;
    }
    let p: u64 = dm * (frac as u64);
    let q: u64 = p / (SCALE as u64);
    proof {
        assert(0 <= p as int / (SCALE as int) <= p as int) by (nonlinear_arith)
            requires
                p >= 0,
                SCALE as int >= 1,
        ;
        // q <= dm because frac <= SCALE
        assert(p <= dm * (SCALE as u64)) by (nonlinear_arith)
            requires
                p == dm * (frac as u64),
                frac as u64 <= SCALE as u64,
        ;
        assert(p as int / (SCALE as int) <= (dm as int * SCALE as int) / (SCALE as int)) by {
            vstd::arithmetic::div_mod::lemma_div_is_ordered(
                p as int,
                dm as int * SCALE as int,
                SCALE as int,
            );
        }
        assert((dm as int * SCALE as int) / (SCALE as int) == dm as int) by (nonlinear_arith)
            requires
                SCALE as int > 0,
        ;
        if neg {
            assert((-(diff as int)) * (frac as int) == -(diff as int * frac as int))
                by (nonlinear_arith);
        }
    }
    let qi: i64 = q as i64;
    let r: i64 = if neg {
        start - qi
    } else {
        start + qi
    };
    proof {
        if neg {
            assert(r == start + div_trunc((target - start) * frac, SCALE as int));
            assert(target <= r <= start);
        } else {
            assert(r == start + div_trunc((target - start) * frac, SCALE as int));
            assert(start <= r <= target);
        }
    }
    r
}

/// Beat-time accumulation: `t + d`, saturating at `TIME_MAX`.
pub fn add_time_saturating(t: i64, d: i64) -> (r: i64)
    requires
        0 <= t <= TIME_MAX,
        0 <= d <= TIME_MAX,
    ensures
        r == if t + d <= TIME_MAX as int {
            t + d
        } else {
            TIME_MAX as int
        },
        0 <= r <= TIME_MAX,
{
    if t > TIME_MAX - d {
        TIME_MAX
    } else {
        t + d
    }
}

} // verus!

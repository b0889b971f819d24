//! Fixed-point trigonometry.
//!
//! Angles are `i64` values counting millionths of a radian, with a
//! half-turn constant `FX_PI` of exactly twice `FX_HALF_PI`, so quarter- and
//! half-turn identities hold exactly in integer arithmetic.  The sine on
//! `[0, FX_PI]` is a rational quadratic approximation evaluated with
//! round-half-up division; it is exact at `0`, `FX_HALF_PI` and `FX_PI`,
//! stays within one unit of magnitude, and its value is pinned down by the
//! spec-level formula `sin_half`, so callers reason about the computed
//! number itself rather than an unknowable real.

use crate::fx::FX_ONE;
use vstd::arithmetic::div_mod::{
    lemma_basic_div, lemma_div_is_ordered, lemma_div_is_ordered_by_denominator,
    lemma_div_multiples_vanish_fancy, lemma_div_pos_is_pos, lemma_fundamental_div_mod,
    lemma_mod_division_less_than_divisor, lemma_multiply_divide_lt,
};
use vstd::pervasive::unreached;
use vstd::prelude::*;

verus! {

/// A quarter turn in fixed-point radians.
pub const FX_HALF_PI: i64 = 1_570_796;

/// A half turn: exactly two quarter turns, so the shift identities used for
/// the cosine are exact.
pub const FX_PI: i64 = 3_141_592;

/// A full turn: exactly two half turns.
pub const FX_TWO_PI: i64 = 6_283_184;

/// The sine on `[0, FX_PI]`: the quadratic rational approximation
/// `16 u / (5 pi^2 - 4 u)` with `u = x (pi - x)`, scaled to fixed point and
/// rounded half-up.  This formula *is* the library's sine on that interval.
pub open spec fn sin_half(x: int) -> int {
    let u = x * (FX_PI - x);
    let den = 5 * FX_PI * FX_PI - 4 * u;
    (16 * u * FX_ONE + den / 2) / den
}

/// The sine on `[-FX_PI, FX_PI]`, extended from `sin_half` as an odd function.
pub open spec fn sin_fx(x: int) -> int {
    if x >= 0 {
        sin_half(x)
    } else {
        -sin_half(-x)
    }
}

/// The argument shift that turns the sine into the cosine: `pi/2 - x`,
/// folded back into `[-FX_PI, FX_PI]`.
pub open spec fn cos_arg(x: int) -> int {
    if x >= -FX_HALF_PI {
        FX_HALF_PI - x
    } else {
        -3 * FX_HALF_PI - x
    }
}

/// The cosine on `[-FX_PI, FX_PI]`.
pub open spec fn cos_fx(x: int) -> int {
    sin_fx(cos_arg(x))
}

/// An angle folded into `[-FX_PI, FX_PI)` by subtracting whole turns.
pub open spec fn wrap_to_pi(a: int) -> int {
    a - ((a + FX_PI) / (FX_TWO_PI as int)) * FX_TWO_PI
}

/// On `[0, FX_PI]` the sine stays within `[0, FX_ONE]`.
pub proof fn lemma_sin_half_range(x: int)
    requires
        0 <= x <= FX_PI,
    ensures
        0 <= sin_half(x) <= FX_ONE,
{
    let u = x * (FX_PI - x);
    let den = 5 * FX_PI * FX_PI - 4 * u;
    let num = 16 * u * FX_ONE;
    assert(0 <= u && 4 * u <= FX_PI * FX_PI) by (nonlinear_arith)
        requires
            0 <= x <= FX_PI,
            u == x * (FX_PI - x),
    ;
    assert(num + den / 2 >= 0);
    lemma_div_pos_is_pos(num + den / 2, den);
    assert(num + den / 2 < den * (FX_ONE + 1)) by (nonlinear_arith)
        requires
            num == 16 * u * FX_ONE,
            den == 5 * FX_PI * FX_PI - 4 * u,
            0 <= u,
            4 * u <= FX_PI * FX_PI,
    ;
    lemma_multiply_divide_lt(num + den / 2, den, FX_ONE + 1);
}

/// The sine vanishes exactly at both ends of the half turn.
pub proof fn lemma_sin_half_ends()
    ensures
        sin_half(0) == 0,
        sin_half(FX_PI as int) == 0,
{
    let den = 5 * FX_PI * FX_PI;
    lemma_basic_div(den / 2, den);
}

/// The sine is exactly one unit at the quarter turn.
pub proof fn lemma_sin_half_top()
    ensures
        sin_half(FX_HALF_PI as int) == FX_ONE,
{
    let u = FX_HALF_PI * (FX_PI - FX_HALF_PI);
    let den = 5 * FX_PI * FX_PI - 4 * u;
    assert(16 * u * FX_ONE == den * FX_ONE);
    lemma_div_multiples_vanish_fancy(FX_ONE as int, den / 2, den);
}

/// A lower bound for the sine away from the ends: on `[a, pi - a]` it is at
/// least the approximation's value bound `16 a (pi - a) / (5 pi^2)`, scaled.
pub proof fn lemma_sin_half_lower(x: int, a: int)
    requires
        1 <= a,
        a <= x <= FX_PI - a,
    ensures
        sin_half(x) >= 16 * (a * (FX_PI - a)) * FX_ONE / (5 * FX_PI * FX_PI),
{
    let u = x * (FX_PI - x);
    let u0 = a * (FX_PI - a);
    let den = 5 * FX_PI * FX_PI - 4 * u;
    let num = 16 * u * FX_ONE;
    assert(u0 <= u && 4 * u <= FX_PI * FX_PI && 0 < u0) by (nonlinear_arith)
        requires
            1 <= a,
            a <= x <= FX_PI - a,
            u == x * (FX_PI - x),
            u0 == a * (FX_PI - a),
    ;
    assert(16 * u0 * FX_ONE <= num);
    assert(1 <= den <= 5 * FX_PI * FX_PI);
    lemma_div_is_ordered(num, num + den / 2, den);
    lemma_div_is_ordered_by_denominator(num, den, 5 * FX_PI * FX_PI);
    lemma_div_is_ordered(16 * u0 * FX_ONE, num, 5 * FX_PI * FX_PI);
}

/// The sine over the whole symmetric interval stays within one unit.
pub proof fn lemma_sin_fx_range(x: int)
    requires
        -FX_PI <= x <= FX_PI,
    ensures
        -FX_ONE <= sin_fx(x) <= FX_ONE,
        sin_fx(0) == 0,
{
    if x >= 0 {
        lemma_sin_half_range(x);
    } else {
        lemma_sin_half_range(-x);
    }
    lemma_sin_half_ends();
}

/// The cosine stays within one unit and is exactly one unit at zero.
pub proof fn lemma_cos_fx_range(x: int)
    requires
        -FX_PI <= x <= FX_PI,
    ensures
        -FX_ONE <= cos_fx(x) <= FX_ONE,
        cos_fx(0) == FX_ONE,
{
    lemma_sin_fx_range(cos_arg(x));
    lemma_sin_half_top();
}

/// Away from the poles the cosine is positive: for `|x| <= pi/2 - a` it is
/// at least the sine's lower bound at distance `a` from the ends.
pub proof fn lemma_cos_fx_lower(x: int, a: int)
    requires
        1 <= a <= FX_HALF_PI,
        -(FX_HALF_PI - a) <= x <= FX_HALF_PI - a,
    ensures
        cos_fx(x) >= 16 * (a * (FX_PI - a)) * FX_ONE / (5 * FX_PI * FX_PI),
{
    let arg = cos_arg(x);
    assert(arg == FX_HALF_PI - x);
    assert(a <= arg <= FX_PI - a);
    lemma_sin_half_lower(arg, a);
}

/// At every angle, at least one of the sine and the cosine is at least
/// six tenths in magnitude: the two cannot be small together.  The proof
/// splits the circle into quarter-turn bands, each a distance of at least
/// an eighth of a turn from one function's zeroes.
pub proof fn lemma_sin_cos_not_both_small(y: int)
    requires
        -FX_PI <= y <= FX_PI,
    ensures
        sin_fx(y) >= 600_000 || sin_fx(y) <= -600_000 || cos_fx(y) >= 600_000 || cos_fx(y)
            <= -600_000,
{
    let q: int = 785_398;
    assert(4 * q == FX_PI);
    assert(16 * (q * (FX_PI - q)) * FX_ONE / (5 * FX_PI * FX_PI) == 600_000) by (nonlinear_arith)
        requires
            q == 785_398,
    ;
    if q <= y <= FX_PI - q {
        lemma_sin_half_lower(y, q);
    } else if -(FX_PI - q) <= y <= -q {
        lemma_sin_half_lower(-y, q);
    } else if -q < y < q {
        let arg = cos_arg(y);
        assert(arg == FX_HALF_PI - y);
        lemma_sin_half_lower(arg, q);
    } else if y > FX_PI - q {
        let arg = cos_arg(y);
        assert(arg == FX_HALF_PI - y);
        assert(q <= -arg <= FX_PI - q);
        lemma_sin_half_lower(-arg, q);
    } else {
        let arg = cos_arg(y);
        assert(arg == -3 * FX_HALF_PI - y);
        assert(q <= -arg <= FX_PI - q);
        lemma_sin_half_lower(-arg, q);
    }
}

/// Folding an angle lands in `[-FX_PI, FX_PI)`, and an angle already there
/// is left unchanged.
pub proof fn lemma_wrap_to_pi_range(a: int)
    ensures
        -FX_PI <= wrap_to_pi(a) < FX_PI,
        -FX_PI <= a < FX_PI ==> wrap_to_pi(a) == a,
{
    let s = a + FX_PI;
    let d = FX_TWO_PI as int;
    lemma_fundamental_div_mod(s, d);
    lemma_mod_division_less_than_divisor(s, d);
    if -FX_PI <= a < FX_PI {
        lemma_basic_div(s, d);
    }
}

/// The sine, computed exactly as `sin_half` prescribes, in 128-bit
/// unsigned arithmetic.
pub fn sin_half_e(x: i64) -> (r: i64)
    requires
        0 <= x <= FX_PI,
    ensures
        r as int == sin_half(x as int),
        0 <= r <= FX_ONE,
{
    proof {
        lemma_sin_half_range(x as int);
        assert(0 <= (x as int) * ((FX_PI - x) as int) && 4 * ((x as int) * ((FX_PI - x) as int))
            <= FX_PI * FX_PI) by (nonlinear_arith)
            requires
                0 <= x <= FX_PI,
        ;
    }
    let u: u128 = (x as u128) * ((FX_PI - x) as u128);
    let five_pi2: u128 = 5u128 * (FX_PI as u128) * (FX_PI as u128);
    let den: u128 = five_pi2 - 4 * u;
    let num: u128 = 16 * u * 1_000_000u128;
    let q: u128 = (num + den / 2) / den;
    proof {
        assert(q as int == sin_half(x as int));
    }
    q as i64
}

/// The sine on the symmetric interval, odd extension of `sin_half_e`.
pub fn sin_fx_e(x: i64) -> (r: i64)
    requires
        -FX_PI <= x <= FX_PI,
    ensures
        r as int == sin_fx(x as int),
        -FX_ONE <= r <= FX_ONE,
{
    if x >= 0 {
        sin_half_e(x)
    } else {
        let t: i64 = sin_half_e(-x);
        -t
    }
}

/// The cosine, by the exact quarter-turn shift of the sine.
pub fn cos_fx_e(x: i64) -> (r: i64)
    requires
        -FX_PI <= x <= FX_PI,
    ensures
        r as int == cos_fx(x as int),
        -FX_ONE <= r <= FX_ONE,
{
    let arg: i64 = if x >= -FX_HALF_PI {
        FX_HALF_PI - x
    } else {
        -3 * FX_HALF_PI - x
    };
    sin_fx_e(arg)
}

/// Folds an angle into `[-FX_PI, FX_PI)` by subtracting whole turns.
pub fn wrap_to_pi_e(a: i64) -> (r: i64)
    requires
        -2_000_000_000_000_000_000 <= a <= 2_000_000_000_000_000_000,
    ensures
        r as int == wrap_to_pi(a as int),
        -FX_PI <= r < FX_PI,
{
    let s: i64 = a + FX_PI;
    proof {
        lemma_fundamental_div_mod(s as int, FX_TWO_PI as int);
        lemma_mod_division_less_than_divisor(s as int, FX_TWO_PI as int);
    }
    let k: i64 = match s.checked_div_euclid(FX_TWO_PI) {
        Some(k) => k,
        None => unreached(),
    };
    let t: i64 = k * FX_TWO_PI;
    a - t
}

} // verus!

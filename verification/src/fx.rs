//! Exact fixed-point scalar arithmetic.
//!
//! Every scalar quantity of the camera — angles in radians, world
//! coordinates, matrix entries — is an `i64` counting millionths of a unit.
//! All operations are plain integer arithmetic with exact contracts, so a
//! value can never become NaN or infinite and every rounding step is pinned
//! down to a specific integer.

use vstd::arithmetic::div_mod::{
    lemma_div_by_multiple, lemma_div_is_ordered, lemma_div_multiples_vanish,
    lemma_div_nonincreasing, lemma_div_pos_is_pos, lemma_multiply_divide_le,
};
use vstd::pervasive::unreached;
use vstd::prelude::*;

verus! {

/// One whole unit of the fixed-point scale (one millionth resolution).
pub const FX_ONE: i64 = 1_000_000;

/// Truncating (round-toward-zero) division: the rounding that `/` performs
/// on machine integers.  The divisor must be positive.
pub open spec fn tdiv(a: int, d: int) -> int {
    if a >= 0 {
        a / d
    } else {
        -((-a) / d)
    }
}

/// The fixed-point product of `a` and `b`, scale preserved.
pub open spec fn fx_mul(a: int, b: int) -> int {
    tdiv(a * b, FX_ONE as int)
}

/// The fixed-point quotient of `a` by `b`, scale preserved; `b` must be positive.
pub open spec fn fx_div(a: int, b: int) -> int {
    tdiv(a * FX_ONE, b)
}

/// `x` forced into the interval `[lo, hi]`.
pub open spec fn clamp(x: int, lo: int, hi: int) -> int {
    if x < lo {
        lo
    } else if x > hi {
        hi
    } else {
        x
    }
}

/// Truncating division by a positive divisor never grows the magnitude and
/// never flips the sign.
pub proof fn lemma_tdiv_mag(a: int, d: int)
    requires
        1 <= d,
    ensures
        a >= 0 ==> 0 <= tdiv(a, d) <= a,
        a < 0 ==> a <= tdiv(a, d) <= 0,
{
    if a >= 0 {
        lemma_div_pos_is_pos(a, d);
        lemma_div_nonincreasing(a, d);
    } else {
        lemma_div_pos_is_pos(-a, d);
        lemma_div_nonincreasing(-a, d);
    }
}

/// A bound on the dividend scales down through truncating division: if
/// `|a| <= b * d` then `|tdiv(a, d)| <= b`.
pub proof fn lemma_tdiv_shrink(a: int, d: int, b: int)
    requires
        1 <= d,
        0 <= b,
        -(b * d) <= a <= b * d,
    ensures
        -b <= tdiv(a, d) <= b,
{
    lemma_tdiv_mag(a, d);
    assert(d * b == b * d) by (nonlinear_arith);
    if a >= 0 {
        lemma_multiply_divide_le(a, d, b);
    } else {
        lemma_multiply_divide_le(-a, d, b);
    }
}

/// A bound on the dividend scales up through truncating division: if
/// `|a| >= k * d` then `|tdiv(a, d)| >= k`, with the sign of `a` kept.
pub proof fn lemma_tdiv_mag_lower(a: int, d: int, k: int)
    requires
        1 <= d,
        0 <= k,
        k * d <= a || a <= -(k * d),
    ensures
        a >= 0 ==> tdiv(a, d) >= k,
        a < 0 ==> tdiv(a, d) <= -k,
{
    assert(0 <= k * d) by (nonlinear_arith)
        requires
            0 <= k,
            1 <= d,
    ;
    lemma_div_by_multiple(k, d);
    if a >= 0 {
        lemma_div_is_ordered(k * d, a, d);
    } else {
        lemma_div_is_ordered(k * d, -a, d);
    }
}

/// `m * tdiv(p, m)` reproduces `p` up to less than one divisor `m`, on the
/// side of zero.
pub proof fn lemma_tdiv_close(p: int, m: int)
    requires
        1 <= m,
    ensures
        p - m < m * tdiv(p, m),
        m * tdiv(p, m) < p + m,
        p >= 0 ==> m * tdiv(p, m) <= p,
        p < 0 ==> p <= m * tdiv(p, m),
{
    if p >= 0 {
        vstd::arithmetic::div_mod::lemma_fundamental_div_mod(p, m);
        vstd::arithmetic::div_mod::lemma_mod_division_less_than_divisor(p, m);
    } else {
        vstd::arithmetic::div_mod::lemma_fundamental_div_mod(-p, m);
        vstd::arithmetic::div_mod::lemma_mod_division_less_than_divisor(-p, m);
        let q = (-p) / m;
        assert(m * (-q) == -(m * q)) by (nonlinear_arith);
    }
}

/// Multiplying by one whole unit is the identity: the scale factors cancel
/// without any rounding.
pub proof fn lemma_fx_mul_one(a: int)
    ensures
        fx_mul(a, FX_ONE as int) == a,
        fx_mul(FX_ONE as int, a) == a,
{
    if a >= 0 {
        lemma_div_multiples_vanish(a, FX_ONE as int);
    } else {
        lemma_div_multiples_vanish(-a, FX_ONE as int);
    }
}

/// The fixed-point product, computed without overflow by widening to
/// 128 bits; the result must fit the 64-bit scale, which every caller
/// shows from its own range bounds.
pub fn fx_mul_e(a: i64, b: i64) -> (r: i64)
    requires
        i64::MIN <= fx_mul(a as int, b as int) <= i64::MAX,
    ensures
        r as int == fx_mul(a as int, b as int),
{
    proof {
        assert((a as int) * (b as int) <= i128::MAX && i128::MIN <= (a as int) * (b as int))
            by (nonlinear_arith)
            requires
                i64::MIN <= a <= i64::MAX,
                i64::MIN <= b <= i64::MAX,
        ;
    }
    let p: i128 = (a as i128) * (b as i128);
    proof {
        lemma_tdiv_mag(p as int, FX_ONE as int);
    }
    let q: i128 = match p.checked_div(1_000_000i128) {
        Some(q) => q,
        None => unreached(),
    };
    q as i64
}

/// The fixed-point quotient, widened to 128 bits internally.  The dividend
/// bound keeps the result within `10^18`, comfortably inside `i64`.
pub fn fx_div_e(a: i64, b: i64) -> (r: i64)
    requires
        1 <= b,
        -1_000_000_000_000 <= a <= 1_000_000_000_000,
    ensures
        r as int == fx_div(a as int, b as int),
        -1_000_000_000_000_000_000 <= r <= 1_000_000_000_000_000_000,
{
    let p: i128 = (a as i128) * 1_000_000i128;
    proof {
        lemma_tdiv_mag(p as int, b as int);
    }
    let q: i128 = match p.checked_div(b as i128) {
        Some(q) => q,
        None => unreached(),
    };
    q as i64
}

/// `x` forced into `[lo, hi]`.
pub fn clamp_e(x: i64, lo: i64, hi: i64) -> (r: i64)
    requires
        lo <= hi,
    ensures
        r as int == clamp(x as int, lo as int, hi as int),
{
    if x < lo {
        lo
    } else if x > hi {
        hi
    } else {
        x
    }
}

/// The integer square root, rounded down.
pub open spec fn sqrt_floor(n: nat) -> nat
    decreases n,
{
    if n == 0 {
        0
    } else {
        let r = sqrt_floor((n - 1) as nat);
        if (r + 1) * (r + 1) <= n {
            r + 1
        } else {
            r
        }
    }
}

/// `sqrt_floor(n)` is the unique integer whose square brackets `n`.
pub proof fn lemma_sqrt_floor_bracket(n: nat)
    ensures
        sqrt_floor(n) * sqrt_floor(n) <= n,
        n < (sqrt_floor(n) + 1) * (sqrt_floor(n) + 1),
    decreases n,
{
    if n == 0 {
        assert(sqrt_floor(0) == 0);
        assert(n < (sqrt_floor(n) + 1) * (sqrt_floor(n) + 1)) by (nonlinear_arith)
            requires
                n == 0,
                sqrt_floor(n) == 0,
        ;
    } else {
        let m = (n - 1) as nat;
        lemma_sqrt_floor_bracket(m);
        let r = sqrt_floor(m);
        assert(m < (r + 1) * (r + 1));
        if (r + 1) * (r + 1) <= n {
            assert(sqrt_floor(n) == r + 1);
            assert(n == (r + 1) * (r + 1));
            assert((r + 2) * (r + 2) > (r + 1) * (r + 1)) by (nonlinear_arith);
            assert(n < (sqrt_floor(n) + 1) * (sqrt_floor(n) + 1));
        } else {
            assert(sqrt_floor(n) == r);
            assert(n < (r + 1) * (r + 1));
            assert(n < (sqrt_floor(n) + 1) * (sqrt_floor(n) + 1));
        }
    }
}

/// Any integer whose square brackets `n` is `sqrt_floor(n)`.
pub proof fn lemma_sqrt_floor_unique(n: nat, r: nat)
    requires
        r * r <= n,
        n < (r + 1) * (r + 1),
    ensures
        r == sqrt_floor(n),
{
    lemma_sqrt_floor_bracket(n);
    let s = sqrt_floor(n);
    if r < s {
        assert((r + 1) * (r + 1) <= s * s) by (nonlinear_arith)
            requires
                r + 1 <= s,
        ;
    } else if s < r {
        assert((s + 1) * (s + 1) <= r * r) by (nonlinear_arith)
            requires
                s + 1 <= r,
        ;
    }
}

/// The integer square root of `n`, by bisection on the bracketing invariant.
pub fn isqrt_u64(n: u64) -> (r: u64)
    requires
        n < 4_503_599_627_370_496u64,
    ensures
        r as nat == sqrt_floor(n as nat),
        (r as int) * (r as int) <= n as int,
        (n as int) < (r as int + 1) * (r as int + 1),
{
    let mut lo: u64 = 0;
    let mut hi: u64 = 67_108_864;
    proof {
        assert((67_108_864int) * (67_108_864int) == 4_503_599_627_370_496int) by (nonlinear_arith);
    }
    while hi - lo > 1
        invariant
            lo < hi,
            hi <= 67_108_864,
            (lo as int) * (lo as int) <= n as int,
            (n as int) < (hi as int) * (hi as int),
        decreases hi - lo,
    {
        let mid: u64 = lo + (hi - lo) / 2;
        proof {
            assert((mid as int) * (mid as int) < 4_503_599_627_370_496int) by (nonlinear_arith)
                requires
                    mid < 67_108_864,
            ;
        }
        let sq: u64 = mid * mid;
        if sq <= n {
            lo = mid;
        } else {
            hi = mid;
        }
    }
    proof {
        lemma_sqrt_floor_unique(n as nat, lo as nat);
    }
    lo
}

} // verus!

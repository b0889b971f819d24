//! Fixed-point 3-vectors.
//!
//! A `Vec3Fx` holds three fixed-point coordinates.  Its mathematical model
//! is `V3`, the same triple over unbounded integers, so contracts can add
//! and multiply components without worrying about machine width; the
//! executable operations carry explicit range premises that rule overflow
//! out.

use crate::fx::{
    clamp, fx_mul, fx_mul_e, lemma_sqrt_floor_bracket, lemma_tdiv_shrink, sqrt_floor, isqrt_u64,
    tdiv, FX_ONE,
};
use vstd::arithmetic::div_mod::{
    lemma_div_pos_is_pos, lemma_fundamental_div_mod, lemma_mod_division_less_than_divisor,
};
use vstd::pervasive::unreached;
use vstd::prelude::*;

verus! {

/// The mathematical model of a fixed-point 3-vector: a triple of integers.
pub ghost struct V3 {
    pub x: int,
    pub y: int,
    pub z: int,
}

/// A 3-vector of fixed-point coordinates (millionths of a world unit).
#[derive(Clone, Copy, Debug, PartialEq, Eq, Structural)]
pub struct Vec3Fx {
    pub x: i64,
    pub y: i64,
    pub z: i64,
}

impl View for Vec3Fx {
    type V = V3;

    open spec fn view(&self) -> V3 {
        V3 { x: self.x as int, y: self.y as int, z: self.z as int }
    }
}

/// Componentwise sum.
pub open spec fn v3_add(a: V3, b: V3) -> V3 {
    V3 { x: a.x + b.x, y: a.y + b.y, z: a.z + b.z }
}

/// Componentwise difference.
pub open spec fn v3_sub(a: V3, b: V3) -> V3 {
    V3 { x: a.x - b.x, y: a.y - b.y, z: a.z - b.z }
}

/// Every component within `[-b, b]`.
pub open spec fn v3_in_range(a: V3, b: int) -> bool {
    &&& -b <= a.x <= b
    &&& -b <= a.y <= b
    &&& -b <= a.z <= b
}

/// A vector scaled by a small signed integer coefficient (not a
/// fixed-point factor): used for the signed sum of pressed directions.
pub open spec fn v3_coeff(c: int, v: V3) -> V3 {
    V3 { x: c * v.x, y: c * v.y, z: c * v.z }
}

/// Every component forced into `[-b, b]`.
pub open spec fn v3_clamp(v: V3, b: int) -> V3 {
    V3 { x: clamp(v.x, -b, b), y: clamp(v.y, -b, b), z: clamp(v.z, -b, b) }
}

/// The fixed-point dot product (scale preserved).
pub open spec fn v3_dot(a: V3, b: V3) -> int {
    fx_mul(a.x, b.x) + fx_mul(a.y, b.y) + fx_mul(a.z, b.z)
}

/// The fixed-point cross product (scale preserved).
pub open spec fn v3_cross(a: V3, b: V3) -> V3 {
    V3 {
        x: fx_mul(a.y, b.z) - fx_mul(a.z, b.y),
        y: fx_mul(a.z, b.x) - fx_mul(a.x, b.z),
        z: fx_mul(a.x, b.y) - fx_mul(a.y, b.x),
    }
}

/// The squared length in raw integer units (scale is the square of the
/// fixed-point scale).
pub open spec fn v3_norm_sq(a: V3) -> int {
    a.x * a.x + a.y * a.y + a.z * a.z
}

/// `v` rescaled to length `s`: each coordinate becomes `v_i * s / m`,
/// truncated, where `m` is the integer square root of the squared length.
/// For a nonzero vector this is the normalize-then-scale step of the
/// camera, carried out in one exact division per coordinate.
pub open spec fn v3_unit_scale(v: V3, s: int) -> V3 {
    let m = sqrt_floor(v3_norm_sq(v) as nat) as int;
    V3 { x: tdiv(v.x * s, m), y: tdiv(v.y * s, m), z: tdiv(v.z * s, m) }
}

impl Vec3Fx {
    /// Builds a vector from its three fixed-point coordinates.
    pub fn new(x: i64, y: i64, z: i64) -> (r: Vec3Fx)
        ensures
            r@ == (V3 { x: x as int, y: y as int, z: z as int }),
    {
        Vec3Fx { x, y, z }
    }

    /// The all-zero vector.
    pub fn zero() -> (r: Vec3Fx)
        ensures
            r@ == (V3 { x: 0, y: 0, z: 0 }),
    {
        Vec3Fx { x: 0, y: 0, z: 0 }
    }

    /// Componentwise sum.
    pub fn vadd(self, other: Vec3Fx) -> (r: Vec3Fx)
        requires
            v3_in_range(self@, 2_000_000_000_000_000_000),
            v3_in_range(other@, 2_000_000_000_000_000_000),
        ensures
            r@ == v3_add(self@, other@),
    {
        Vec3Fx { x: self.x + other.x, y: self.y + other.y, z: self.z + other.z }
    }

    /// Componentwise difference.
    pub fn vsub(self, other: Vec3Fx) -> (r: Vec3Fx)
        requires
            v3_in_range(self@, 2_000_000_000_000_000_000),
            v3_in_range(other@, 2_000_000_000_000_000_000),
        ensures
            r@ == v3_sub(self@, other@),
    {
        Vec3Fx { x: self.x - other.x, y: self.y - other.y, z: self.z - other.z }
    }

    /// The fixed-point dot product; `self` must be of frame-vector size,
    /// `other` may be as large as a world position.
    pub fn dot(self, other: Vec3Fx) -> (r: i64)
        requires
            v3_in_range(self@, 33_000_000),
            v3_in_range(other@, 1_000_000_000_000),
        ensures
            r as int == v3_dot(self@, other@),
            -99_000_000_000_000 <= r <= 99_000_000_000_000,
    {
        proof {
            lemma_dot_term_bound(self@.x, other@.x);
            lemma_dot_term_bound(self@.y, other@.y);
            lemma_dot_term_bound(self@.z, other@.z);
        }
        let a: i64 = fx_mul_e(self.x, other.x);
        let b: i64 = fx_mul_e(self.y, other.y);
        let c: i64 = fx_mul_e(self.z, other.z);
        a + b + c
    }

    /// The fixed-point cross product of two unit-sized vectors.
    pub fn cross(self, other: Vec3Fx) -> (r: Vec3Fx)
        requires
            v3_in_range(self@, 4_000_000),
            v3_in_range(other@, 4_000_000),
        ensures
            r@ == v3_cross(self@, other@),
            v3_in_range(r@, 33_000_000),
    {
        proof {
            lemma_cross_term_bound(self@.x, other@.x);
            lemma_cross_term_bound(self@.x, other@.y);
            lemma_cross_term_bound(self@.x, other@.z);
            lemma_cross_term_bound(self@.y, other@.x);
            lemma_cross_term_bound(self@.y, other@.y);
            lemma_cross_term_bound(self@.y, other@.z);
            lemma_cross_term_bound(self@.z, other@.x);
            lemma_cross_term_bound(self@.z, other@.y);
            lemma_cross_term_bound(self@.z, other@.z);
        }
        Vec3Fx {
            x: fx_mul_e(self.y, other.z) - fx_mul_e(self.z, other.y),
            y: fx_mul_e(self.z, other.x) - fx_mul_e(self.x, other.z),
            z: fx_mul_e(self.x, other.y) - fx_mul_e(self.y, other.x),
        }
    }

    /// The squared length of a vector of bounded components.
    pub fn norm_sq(self) -> (r: i64)
        requires
            v3_in_range(self@, 33_000_000),
        ensures
            r as int == v3_norm_sq(self@),
            0 <= r <= 3_267_000_000_000_000,
    {
        proof {
            lemma_square_bound(self@.x, 33_000_000);
            lemma_square_bound(self@.y, 33_000_000);
            lemma_square_bound(self@.z, 33_000_000);
        }
        self.x * self.x + self.y * self.y + self.z * self.z
    }

    /// Rescales a nonzero vector to length `s` (each resulting component
    /// is bounded by `s` in magnitude).
    pub fn unit_scale(self, s: i64) -> (r: Vec3Fx)
        requires
            v3_in_range(self@, 33_000_000),
            0 <= s <= 1_000_000_000,
            v3_norm_sq(self@) >= 1,
        ensures
            r@ == v3_unit_scale(self@, s as int),
            v3_in_range(r@, s as int),
    {
        let n: i64 = self.norm_sq();
        let m: u64 = isqrt_u64(n as u64);
        proof {
            assert((n as u64) as int == n as int);
            lemma_square_bound(self@.x, 33_000_000);
            lemma_square_bound(self@.y, 33_000_000);
            lemma_square_bound(self@.z, 33_000_000);
            if m == 0 {
                assert((m as int + 1) * (m as int + 1) == 1) by (nonlinear_arith)
                    requires
                        m as int == 0,
                ;
                assert(n < 1);
            }
            if m >= 60_000_000 {
                assert((60_000_000int) * (60_000_000int) <= (m as int) * (m as int))
                    by (nonlinear_arith)
                    requires
                        m >= 60_000_000,
                ;
            }
            assert(m as int == sqrt_floor(v3_norm_sq(self@) as nat) as int);
            lemma_component_le_root(self@.x, n as int, m as int);
            lemma_component_le_root(self@.y, n as int, m as int);
            lemma_component_le_root(self@.z, n as int, m as int);
        }
        let rx: i64 = scale_div(self.x, s, m);
        let ry: i64 = scale_div(self.y, s, m);
        let rz: i64 = scale_div(self.z, s, m);
        Vec3Fx { x: rx, y: ry, z: rz }
    }
}

/// One coordinate of the rescaling step: `v * s / m`, truncated, with the
/// result bounded by `s` because `|v| <= m`.
fn scale_div(v: i64, s: i64, m: u64) -> (r: i64)
    requires
        1 <= m <= 60_000_000,
        0 <= s <= 1_000_000_000,
        -(m as int) <= v <= m as int,
    ensures
        r as int == tdiv(v as int * s as int, m as int),
        -(s as int) <= r as int <= s as int,
{
    proof {
        assert(-((m as int) * (s as int)) <= (v as int) * (s as int) <= (m as int) * (s as int))
            by (nonlinear_arith)
            requires
                -(m as int) <= v as int <= m as int,
                0 <= s as int,
        ;
        assert((m as int) * (s as int) == (s as int) * (m as int)) by (nonlinear_arith);
        assert((m as int) * (s as int) <= 60_000_000_000_000_000) by (nonlinear_arith)
            requires
                1 <= m as int <= 60_000_000,
                0 <= s as int <= 1_000_000_000,
        ;
        lemma_tdiv_shrink((v as int) * (s as int), m as int, s as int);
    }
    let p: i128 = (v as i128) * (s as i128);
    let q: i128 = match p.checked_div(m as i128) {
        Some(q) => q,
        None => unreached(),
    };
    q as i64
}

/// One coordinate of the rescaling step, squared: `m^2 q^2` differs from
/// `(a s)^2` by at most the truncation slack `2 s m^2`, where
/// `q = tdiv(a s, m)`.
proof fn lemma_scale_component_sq(a: int, s: int, m: int)
    requires
        1 <= m,
        0 <= s,
        -m <= a <= m,
    ensures
        m * m * (tdiv(a * s, m) * tdiv(a * s, m)) <= (a * s) * (a * s),
        m * m * (tdiv(a * s, m) * tdiv(a * s, m)) >= (a * s) * (a * s) - 2 * s * (m * m),
{
    let p = a * s;
    assert(-(m * s) <= p <= m * s) by (nonlinear_arith)
        requires
            p == a * s,
            -m <= a <= m,
            0 <= s,
    ;
    if p >= 0 {
        lemma_fundamental_div_mod(p, m);
        lemma_mod_division_less_than_divisor(p, m);
        lemma_div_pos_is_pos(p, m);
        let q = p / m;
        let rem = p % m;
        assert(tdiv(p, m) == q);
        assert(m * m * (q * q) <= p * p && m * m * (q * q) >= p * p - 2 * s * (m * m))
            by (nonlinear_arith)
            requires
                p == m * q + rem,
                0 <= rem < m,
                0 <= q,
                0 <= p <= m * s,
                0 <= s,
                1 <= m,
        ;
    } else {
        let pp = -p;
        lemma_fundamental_div_mod(pp, m);
        lemma_mod_division_less_than_divisor(pp, m);
        lemma_div_pos_is_pos(pp, m);
        let q = pp / m;
        let rem = pp % m;
        assert(tdiv(p, m) == -q);
        assert(m * m * (q * q) <= pp * pp && m * m * (q * q) >= pp * pp - 2 * s * (m * m))
            by (nonlinear_arith)
            requires
                pp == m * q + rem,
                0 <= rem < m,
                0 <= q,
                0 <= pp <= m * s,
                0 <= s,
                1 <= m,
        ;
        assert((-q) * (-q) == q * q && pp * pp == p * p) by (nonlinear_arith)
            requires
                pp == -p,
        ;
    }
}

/// Rescaling to length `s` bounds every component by `s`, at the spec
/// level.
pub proof fn lemma_unit_scale_in_range(v: V3, s: int)
    requires
        1 <= v3_norm_sq(v),
        0 <= s,
    ensures
        v3_in_range(v3_unit_scale(v, s), s),
{
    let n = v3_norm_sq(v);
    lemma_sqrt_floor_bracket(n as nat);
    let m = sqrt_floor(n as nat) as int;
    if m == 0 {
        assert((m + 1) * (m + 1) == 1) by (nonlinear_arith)
            requires
                m == 0,
        ;
        assert(false);
    }
    assert(v.x * v.x >= 0 && v.y * v.y >= 0 && v.z * v.z >= 0) by (nonlinear_arith);
    lemma_component_le_root(v.x, n, m);
    lemma_component_le_root(v.y, n, m);
    lemma_component_le_root(v.z, n, m);
    assert(-(s * m) <= v.x * s <= s * m && -(s * m) <= v.y * s <= s * m && -(s * m) <= v.z * s
        <= s * m) by (nonlinear_arith)
        requires
            -m <= v.x <= m,
            -m <= v.y <= m,
            -m <= v.z <= m,
            0 <= s,
    ;
    lemma_tdiv_shrink(v.x * s, m, s);
    lemma_tdiv_shrink(v.y * s, m, s);
    lemma_tdiv_shrink(v.z * s, m, s);
}

/// The squared length of a rescaled vector is the target `s^2` up to
/// exactly quantified truncation slack: at least `s^2 - 6 s`, and at most
/// `s^2` inflated by twice `s^2 / m`, where `m` is the integer square
/// root of the original squared length.
pub proof fn lemma_unit_scale_norm_bounds(v: V3, s: int)
    requires
        1 <= v3_norm_sq(v),
        0 <= s,
    ensures
        ({
            let m = sqrt_floor(v3_norm_sq(v) as nat) as int;
            let w = v3_unit_scale(v, s);
            &&& v3_norm_sq(w) >= s * s - 6 * s
            &&& m * m * v3_norm_sq(w) <= s * s * v3_norm_sq(v)
            &&& m * v3_norm_sq(w) <= m * (s * s) + 2 * (s * s)
        }),
{
    let n = v3_norm_sq(v);
    lemma_sqrt_floor_bracket(n as nat);
    let m = sqrt_floor(n as nat) as int;
    if m == 0 {
        assert((m + 1) * (m + 1) == 1) by (nonlinear_arith)
            requires
                m == 0,
        ;
        assert(false);
    }
    assert(v.x * v.x >= 0 && v.y * v.y >= 0 && v.z * v.z >= 0) by (nonlinear_arith);
    lemma_component_le_root(v.x, n, m);
    lemma_component_le_root(v.y, n, m);
    lemma_component_le_root(v.z, n, m);
    lemma_scale_component_sq(v.x, s, m);
    lemma_scale_component_sq(v.y, s, m);
    lemma_scale_component_sq(v.z, s, m);
    let w = v3_unit_scale(v, s);
    assert((v.x * s) * (v.x * s) == s * s * (v.x * v.x) && (v.y * s) * (v.y * s) == s * s * (v.y
        * v.y) && (v.z * s) * (v.z * s) == s * s * (v.z * v.z)) by (nonlinear_arith);
    assert(m * m * v3_norm_sq(w) <= s * s * n && m * m * v3_norm_sq(w) >= s * s * n - 6 * s * (m
        * m)) by (nonlinear_arith)
        requires
            m * m * (w.x * w.x) <= s * s * (v.x * v.x),
            m * m * (w.y * w.y) <= s * s * (v.y * v.y),
            m * m * (w.z * w.z) <= s * s * (v.z * v.z),
            m * m * (w.x * w.x) >= s * s * (v.x * v.x) - 2 * s * (m * m),
            m * m * (w.y * w.y) >= s * s * (v.y * v.y) - 2 * s * (m * m),
            m * m * (w.z * w.z) >= s * s * (v.z * v.z) - 2 * s * (m * m),
            v3_norm_sq(w) == w.x * w.x + w.y * w.y + w.z * w.z,
            n == v.x * v.x + v.y * v.y + v.z * v.z,
    ;
    assert(v3_norm_sq(w) >= s * s - 6 * s) by (nonlinear_arith)
        requires
            m * m * v3_norm_sq(w) >= s * s * n - 6 * s * (m * m),
            m * m <= n,
            0 <= s,
            1 <= m,
    ;
    assert(n <= m * m + 2 * m) by (nonlinear_arith)
        requires
            n < (m + 1) * (m + 1),
    ;
    assert(m * v3_norm_sq(w) <= m * (s * s) + 2 * (s * s)) by (nonlinear_arith)
        requires
            m * m * v3_norm_sq(w) <= s * s * n,
            n <= m * m + 2 * m,
            0 <= s,
            1 <= m,
    ;
}

/// A component is no longer than the integer square root of the squared
/// length.
proof fn lemma_component_le_root(v: int, n: int, m: int)
    requires
        v * v <= n,
        n < (m + 1) * (m + 1),
        0 <= m,
    ensures
        -m <= v <= m,
{
    if v > m {
        assert((m + 1) * (m + 1) <= v * v) by (nonlinear_arith)
            requires
                0 <= m,
                m + 1 <= v,
        ;
    }
    if v < -m {
        assert((m + 1) * (m + 1) <= v * v) by (nonlinear_arith)
            requires
                0 <= m,
                v <= -(m + 1),
        ;
    }
}

/// The square of a bounded value is bounded by the square of the bound.
pub proof fn lemma_square_bound(v: int, b: int)
    requires
        -b <= v <= b,
        0 <= b,
    ensures
        0 <= v * v <= b * b,
{
    assert(0 <= v * v <= b * b) by (nonlinear_arith)
        requires
            -b <= v <= b,
            0 <= b,
    ;
}

/// A dot-product term of a frame-sized and a position-sized coordinate
/// stays within `3.3 * 10^13`.
proof fn lemma_dot_term_bound(a: int, b: int)
    requires
        -33_000_000 <= a <= 33_000_000,
        -1_000_000_000_000 <= b <= 1_000_000_000_000,
    ensures
        -33_000_000_000_000 <= fx_mul(a, b) <= 33_000_000_000_000,
{
    assert(-33_000_000_000_000_000_000 <= a * b <= 33_000_000_000_000_000_000)
        by (nonlinear_arith)
        requires
            -33_000_000 <= a <= 33_000_000,
            -1_000_000_000_000 <= b <= 1_000_000_000_000,
    ;
    lemma_tdiv_shrink(a * b, FX_ONE as int, 33_000_000_000_000);
}

/// A cross-product term of two unit-sized coordinates stays within
/// `1.6 * 10^7`.
proof fn lemma_cross_term_bound(a: int, b: int)
    requires
        -4_000_000 <= a <= 4_000_000,
        -4_000_000 <= b <= 4_000_000,
    ensures
        -16_000_000 <= fx_mul(a, b) <= 16_000_000,
{
    assert(-16_000_000_000_000 <= a * b <= 16_000_000_000_000) by (nonlinear_arith)
        requires
            -4_000_000 <= a <= 4_000_000,
            -4_000_000 <= b <= 4_000_000,
    ;
    lemma_tdiv_shrink(a * b, FX_ONE as int, 16_000_000);
}

} // verus!

//! Fixed-point 4x4 matrices, stored as four columns.
//!
//! The two builders mirror the classic right-handed camera transforms: a
//! perspective projection for a fixed quarter-turn vertical field of view,
//! and a look-at view frame built from a forward direction and a world-up
//! vector.  Every entry is a fixed-point integer given exactly by the
//! spec-level formulas, so the product `projection * view` that the camera
//! caches is a fully determined function of the camera state.

use crate::fx::{fx_div, fx_div_e, fx_mul, fx_mul_e, lemma_tdiv_shrink, FX_ONE};
use crate::vec3::{
    v3_cross, v3_dot, v3_in_range, v3_norm_sq, v3_unit_scale, Vec3Fx, V3,
};
use vstd::prelude::*;

verus! {

/// Cotangent of half the vertical field of view (an eighth of a turn),
/// in fixed point: the focal length of the projection.
pub const FX_FOCAL: i64 = 2_414_214;

/// Near clipping distance (one tenth of a world unit).
pub const FX_ZNEAR: i64 = 100_000;

/// Far clipping distance (one hundred world units).
pub const FX_ZFAR: i64 = 100_000_000;

/// Smallest admissible aspect ratio (the numerical-safety floor used when a
/// resize degenerates).
pub const FX_ASPECT_MIN: i64 = 10_000;

/// Largest admissible aspect ratio.
pub const FX_ASPECT_MAX: i64 = 100_000_000;

/// The mathematical model of a column: four unbounded integers.
pub ghost struct V4 {
    pub x: int,
    pub y: int,
    pub z: int,
    pub w: int,
}

/// The mathematical model of a matrix: four columns.
pub ghost struct M4 {
    pub c0: V4,
    pub c1: V4,
    pub c2: V4,
    pub c3: V4,
}

/// One column of a fixed-point matrix.
#[derive(Clone, Copy, Debug, PartialEq, Eq, Structural)]
pub struct Vec4Fx {
    pub x: i64,
    pub y: i64,
    pub z: i64,
    pub w: i64,
}

/// A fixed-point 4x4 matrix in column-major layout.
#[derive(Clone, Copy, Debug, PartialEq, Eq, Structural)]
pub struct Mat4Fx {
    pub c0: Vec4Fx,
    pub c1: Vec4Fx,
    pub c2: Vec4Fx,
    pub c3: Vec4Fx,
}

impl View for Vec4Fx {
    type V = V4;

    open spec fn view(&self) -> V4 {
        V4 { x: self.x as int, y: self.y as int, z: self.z as int, w: self.w as int }
    }
}

impl View for Mat4Fx {
    type V = M4;

    open spec fn view(&self) -> M4 {
        M4 { c0: self.c0@, c1: self.c1@, c2: self.c2@, c3: self.c3@ }
    }
}

/// Every component of a column within `[-b, b]`.
pub open spec fn v4_in_range(v: V4, b: int) -> bool {
    &&& -b <= v.x <= b
    &&& -b <= v.y <= b
    &&& -b <= v.z <= b
    &&& -b <= v.w <= b
}

/// Every entry of a matrix within `[-b, b]`.
pub open spec fn m4_in_range(m: M4, b: int) -> bool {
    &&& v4_in_range(m.c0, b)
    &&& v4_in_range(m.c1, b)
    &&& v4_in_range(m.c2, b)
    &&& v4_in_range(m.c3, b)
}

/// The identity matrix (ones on the diagonal, in fixed point).
pub open spec fn m4_identity() -> M4 {
    M4 {
        c0: V4 { x: FX_ONE as int, y: 0, z: 0, w: 0 },
        c1: V4 { x: 0, y: FX_ONE as int, z: 0, w: 0 },
        c2: V4 { x: 0, y: 0, z: FX_ONE as int, w: 0 },
        c3: V4 { x: 0, y: 0, z: 0, w: FX_ONE as int },
    }
}

/// A matrix applied to a column vector, in fixed-point arithmetic.
pub open spec fn v4_comb(m: M4, v: V4) -> V4 {
    V4 {
        x: fx_mul(m.c0.x, v.x) + fx_mul(m.c1.x, v.y) + fx_mul(m.c2.x, v.z) + fx_mul(m.c3.x, v.w),
        y: fx_mul(m.c0.y, v.x) + fx_mul(m.c1.y, v.y) + fx_mul(m.c2.y, v.z) + fx_mul(m.c3.y, v.w),
        z: fx_mul(m.c0.z, v.x) + fx_mul(m.c1.z, v.y) + fx_mul(m.c2.z, v.z) + fx_mul(m.c3.z, v.w),
        w: fx_mul(m.c0.w, v.x) + fx_mul(m.c1.w, v.y) + fx_mul(m.c2.w, v.z) + fx_mul(m.c3.w, v.w),
    }
}

/// The matrix product `a * b`: `a` applied to each column of `b`.
pub open spec fn m4_mul(a: M4, b: M4) -> M4 {
    M4 { c0: v4_comb(a, b.c0), c1: v4_comb(a, b.c1), c2: v4_comb(a, b.c2), c3: v4_comb(a, b.c3) }
}

/// The right-handed perspective projection for the fixed field of view and
/// clip planes, at the given aspect ratio.
pub open spec fn m4_perspective(aspect: int) -> M4 {
    M4 {
        c0: V4 { x: fx_div(FX_FOCAL as int, aspect), y: 0, z: 0, w: 0 },
        c1: V4 { x: 0, y: FX_FOCAL as int, z: 0, w: 0 },
        c2: V4 {
            x: 0,
            y: 0,
            z: -fx_div((FX_ZFAR + FX_ZNEAR) as int, (FX_ZFAR - FX_ZNEAR) as int),
            w: -(FX_ONE as int),
        },
        c3: V4 {
            x: 0,
            y: 0,
            z: -fx_div(fx_mul(2 * FX_ZNEAR, FX_ZFAR as int), (FX_ZFAR - FX_ZNEAR) as int),
            w: 0,
        },
    }
}

/// The right-handed look-at view matrix: the camera frame `(s, u, -f)`
/// derived from the (not yet normalized) forward direction `dir` and the
/// world-up vector, with the eye translation folded in.
pub open spec fn m4_look_at(eye: V3, dir: V3, up: V3) -> M4 {
    let f = v3_unit_scale(dir, FX_ONE as int);
    let s = v3_unit_scale(v3_cross(f, up), FX_ONE as int);
    let u = v3_cross(s, f);
    M4 {
        c0: V4 { x: s.x, y: u.x, z: -f.x, w: 0 },
        c1: V4 { x: s.y, y: u.y, z: -f.y, w: 0 },
        c2: V4 { x: s.z, y: u.z, z: -f.z, w: 0 },
        c3: V4 {
            x: -v3_dot(s, eye),
            y: -v3_dot(u, eye),
            z: v3_dot(f, eye),
            w: FX_ONE as int,
        },
    }
}

impl Mat4Fx {
    /// The identity matrix.
    pub fn identity() -> (r: Mat4Fx)
        ensures
            r@ == m4_identity(),
    {
        Mat4Fx {
            c0: Vec4Fx { x: FX_ONE, y: 0, z: 0, w: 0 },
            c1: Vec4Fx { x: 0, y: FX_ONE, z: 0, w: 0 },
            c2: Vec4Fx { x: 0, y: 0, z: FX_ONE, w: 0 },
            c3: Vec4Fx { x: 0, y: 0, z: 0, w: FX_ONE },
        }
    }

    /// The sixteen entries in column-major order, ready for upload.
    pub fn to_cols(&self) -> (r: Vec<i64>)
        ensures
            r@.len() == 16,
            r@[0] == self.c0.x as int && r@[1] == self.c0.y as int && r@[2] == self.c0.z as int
                && r@[3] == self.c0.w as int,
            r@[4] == self.c1.x as int && r@[5] == self.c1.y as int && r@[6] == self.c1.z as int
                && r@[7] == self.c1.w as int,
            r@[8] == self.c2.x as int && r@[9] == self.c2.y as int && r@[10] == self.c2.z as int
                && r@[11] == self.c2.w as int,
            r@[12] == self.c3.x as int && r@[13] == self.c3.y as int && r@[14] == self.c3.z as int
                && r@[15] == self.c3.w as int,
    {
        let mut out: Vec<i64> = Vec::new();
        out.push(self.c0.x);
        out.push(self.c0.y);
        out.push(self.c0.z);
        out.push(self.c0.w);
        out.push(self.c1.x);
        out.push(self.c1.y);
        out.push(self.c1.z);
        out.push(self.c1.w);
        out.push(self.c2.x);
        out.push(self.c2.y);
        out.push(self.c2.z);
        out.push(self.c2.w);
        out.push(self.c3.x);
        out.push(self.c3.y);
        out.push(self.c3.z);
        out.push(self.c3.w);
        out
    }
}

/// The perspective projection at the given (already clamped) aspect ratio.
pub fn m4_perspective_e(aspect: i64) -> (r: Mat4Fx)
    requires
        FX_ASPECT_MIN <= aspect <= FX_ASPECT_MAX,
    ensures
        r@ == m4_perspective(aspect as int),
        m4_in_range(r@, 300_000_000),
{
    proof {
        assert(2_414_214_000_000 <= 300_000_000 * (aspect as int)) by (nonlinear_arith)
            requires
                aspect as int >= 10_000,
        ;
        lemma_tdiv_shrink(
            (FX_FOCAL as int) * (FX_ONE as int),
            aspect as int,
            300_000_000,
        );
    }
    let px: i64 = fx_div_e(FX_FOCAL, aspect);
    let depth: i64 = FX_ZFAR - FX_ZNEAR;
    let pz: i64 = fx_div_e(FX_ZFAR + FX_ZNEAR, depth);
    let near2_far: i64 = fx_mul_e(2 * FX_ZNEAR, FX_ZFAR);
    let pw: i64 = fx_div_e(near2_far, depth);
    Mat4Fx {
        c0: Vec4Fx { x: px, y: 0, z: 0, w: 0 },
        c1: Vec4Fx { x: 0, y: FX_FOCAL, z: 0, w: 0 },
        c2: Vec4Fx { x: 0, y: 0, z: -pz, w: -FX_ONE },
        c3: Vec4Fx { x: 0, y: 0, z: -pw, w: 0 },
    }
}

/// The look-at view matrix.  The forward direction need not be normalized,
/// but it must be a nonzero unit-sized vector whose normalized form is not
/// collinear with `up` (the cross product below must be nonzero).
pub fn m4_look_at_e(eye: Vec3Fx, dir: Vec3Fx, up: Vec3Fx) -> (r: Mat4Fx)
    requires
        v3_in_range(eye@, 1_000_000_000_000),
        v3_in_range(dir@, 2_000_000),
        v3_in_range(up@, 1_000_000),
        v3_norm_sq(dir@) >= 1,
        v3_norm_sq(v3_cross(v3_unit_scale(dir@, FX_ONE as int), up@)) >= 1,
    ensures
        r@ == m4_look_at(eye@, dir@, up@),
        m4_in_range(r@, 99_000_000_000_000),
{
    let f: Vec3Fx = dir.unit_scale(FX_ONE);
    let s_raw: Vec3Fx = f.cross(up);
    let s: Vec3Fx = s_raw.unit_scale(FX_ONE);
    let u: Vec3Fx = s.cross(f);
    let tx: i64 = s.dot(eye);
    let ty: i64 = u.dot(eye);
    let tz: i64 = f.dot(eye);
    Mat4Fx {
        c0: Vec4Fx { x: s.x, y: u.x, z: -f.x, w: 0 },
        c1: Vec4Fx { x: s.y, y: u.y, z: -f.y, w: 0 },
        c2: Vec4Fx { x: s.z, y: u.z, z: -f.z, w: 0 },
        c3: Vec4Fx { x: -tx, y: -ty, z: tz, w: FX_ONE },
    }
}

/// One product entry: a matrix row combined with a column vector, each
/// term bounded so the 64-bit sums cannot overflow.
fn v4_comb_e(m: &Mat4Fx, v: Vec4Fx) -> (r: Vec4Fx)
    requires
        m4_in_range(m@, 300_000_000),
        v4_in_range(v@, 100_000_000_000_000),
    ensures
        r@ == v4_comb(m@, v@),
        v4_in_range(r@, 120_000_000_000_000_000),
{
    proof {
        lemma_comb_term_bound(m@.c0.x, v@.x);
        lemma_comb_term_bound(m@.c1.x, v@.y);
        lemma_comb_term_bound(m@.c2.x, v@.z);
        lemma_comb_term_bound(m@.c3.x, v@.w);
        lemma_comb_term_bound(m@.c0.y, v@.x);
        lemma_comb_term_bound(m@.c1.y, v@.y);
        lemma_comb_term_bound(m@.c2.y, v@.z);
        lemma_comb_term_bound(m@.c3.y, v@.w);
        lemma_comb_term_bound(m@.c0.z, v@.x);
        lemma_comb_term_bound(m@.c1.z, v@.y);
        lemma_comb_term_bound(m@.c2.z, v@.z);
        lemma_comb_term_bound(m@.c3.z, v@.w);
        lemma_comb_term_bound(m@.c0.w, v@.x);
        lemma_comb_term_bound(m@.c1.w, v@.y);
        lemma_comb_term_bound(m@.c2.w, v@.z);
        lemma_comb_term_bound(m@.c3.w, v@.w);
    }
    Vec4Fx {
        x: fx_mul_e(m.c0.x, v.x) + fx_mul_e(m.c1.x, v.y) + fx_mul_e(m.c2.x, v.z)
            + fx_mul_e(m.c3.x, v.w),
        y: fx_mul_e(m.c0.y, v.x) + fx_mul_e(m.c1.y, v.y) + fx_mul_e(m.c2.y, v.z)
            + fx_mul_e(m.c3.y, v.w),
        z: fx_mul_e(m.c0.z, v.x) + fx_mul_e(m.c1.z, v.y) + fx_mul_e(m.c2.z, v.z)
            + fx_mul_e(m.c3.z, v.w),
        w: fx_mul_e(m.c0.w, v.x) + fx_mul_e(m.c1.w, v.y) + fx_mul_e(m.c2.w, v.z)
            + fx_mul_e(m.c3.w, v.w),
    }
}

/// The matrix product of a projection-sized matrix and a view-sized matrix.
pub fn m4_mul_e(a: &Mat4Fx, b: &Mat4Fx) -> (r: Mat4Fx)
    requires
        m4_in_range(a@, 300_000_000),
        m4_in_range(b@, 100_000_000_000_000),
    ensures
        r@ == m4_mul(a@, b@),
        m4_in_range(r@, 120_000_000_000_000_000),
{
    Mat4Fx {
        c0: v4_comb_e(a, b.c0),
        c1: v4_comb_e(a, b.c1),
        c2: v4_comb_e(a, b.c2),
        c3: v4_comb_e(a, b.c3),
    }
}

/// One term of a product entry stays within `3 * 10^16`.
proof fn lemma_comb_term_bound(a: int, b: int)
    requires
        -300_000_000 <= a <= 300_000_000,
        -100_000_000_000_000 <= b <= 100_000_000_000_000,
    ensures
        -30_000_000_000_000_000 <= fx_mul(a, b) <= 30_000_000_000_000_000,
{
    assert(-30_000_000_000_000_000_000_000 <= a * b <= 30_000_000_000_000_000_000_000)
        by (nonlinear_arith)
        requires
            -300_000_000 <= a <= 300_000_000,
            -100_000_000_000_000 <= b <= 100_000_000_000_000,
    ;
    lemma_tdiv_shrink(a * b, FX_ONE as int, 30_000_000_000_000_000);
}

} // verus!

//! Cross-cutting guarantees of the camera, stated and proved once over
//! the spec-level model that the methods' contracts use.

use crate::camera::{
    forward_dir, lemma_coeff_cases, lemma_dir_good, lemma_frame_good, motion_pitch, motion_yaw,
    Camera, FX_PITCH_LIMIT,
};
use crate::fx::{
    lemma_fx_mul_one, lemma_sqrt_floor_bracket, lemma_tdiv_close, lemma_tdiv_mag, sqrt_floor,
    FX_ONE,
};
use crate::trig::{
    cos_fx, lemma_cos_fx_range, lemma_sin_cos_not_both_small, lemma_sin_fx_range,
    lemma_wrap_to_pi_range, sin_fx, FX_HALF_PI, FX_PI,
};
use crate::vec3::{
    lemma_unit_scale_in_range, lemma_unit_scale_norm_bounds, v3_add, v3_cross, v3_norm_sq,
    v3_unit_scale, V3,
};
use vstd::prelude::*;

verus! {

/// The pitch reached from `p0` after a sequence of vertical mouse deltas,
/// each applied through one motion sample.
pub open spec fn pitch_after(p0: int, dys: Seq<int>, sens: int) -> int
    decreases dys.len(),
{
    if dys.len() == 0 {
        p0
    } else {
        motion_pitch(pitch_after(p0, dys.drop_last(), sens), dys.last(), sens)
    }
}

/// Under every sequence of mouse-motion samples the pitch stays within
/// the clamped interval, strictly inside the open quarter-turn interval:
/// the view direction can never reach the up-axis poles.
pub proof fn lemma_pitch_always_clamped(p0: int, dys: Seq<int>, sens: int)
    requires
        -FX_PITCH_LIMIT <= p0 <= FX_PITCH_LIMIT,
    ensures
        -FX_PITCH_LIMIT <= pitch_after(p0, dys, sens) <= FX_PITCH_LIMIT,
        -FX_HALF_PI < pitch_after(p0, dys, sens) < FX_HALF_PI,
    decreases dys.len(),
{
    if dys.len() == 0 {
    } else {
        lemma_pitch_always_clamped(p0, dys.drop_last(), sens);
    }
}

/// One step of the camera's life as the yaw sees it: a mouse-motion
/// sample carrying its horizontal delta, or a frame tick carrying none.
pub open spec fn yaw_after(y0: int, ops: Seq<Option<int>>, sens: int) -> int
    decreases ops.len(),
{
    if ops.len() == 0 {
        y0
    } else {
        match ops.last() {
            Some(dx) => motion_yaw(yaw_after(y0, ops.drop_last(), sens), dx, sens),
            None => yaw_after(y0, ops.drop_last(), sens),
        }
    }
}

/// The horizontal deltas of the motion samples in a step sequence, with
/// the frame ticks dropped.
pub open spec fn samples_of(ops: Seq<Option<int>>) -> Seq<int>
    decreases ops.len(),
{
    if ops.len() == 0 {
        Seq::empty()
    } else {
        match ops.last() {
            Some(dx) => samples_of(ops.drop_last()).push(dx),
            None => samples_of(ops.drop_last()),
        }
    }
}

/// The yaw reached from `y0` after a sequence of motion samples alone.
pub open spec fn yaw_after_samples(y0: int, dxs: Seq<int>, sens: int) -> int
    decreases dxs.len(),
{
    if dxs.len() == 0 {
        y0
    } else {
        motion_yaw(yaw_after_samples(y0, dxs.drop_last(), sens), dxs.last(), sens)
    }
}

/// Mouse sensitivity is independent of the frame rate: over any
/// interleaving of mouse-motion samples and frame ticks, the resulting
/// yaw is a function of the samples alone — the ticks drop out, because
/// a tick never touches the angles.
pub proof fn lemma_yaw_ignores_frame_ticks(y0: int, ops: Seq<Option<int>>, sens: int)
    ensures
        yaw_after(y0, ops, sens) == yaw_after_samples(y0, samples_of(ops), sens),
    decreases ops.len(),
{
    if ops.len() == 0 {
    } else {
        lemma_yaw_ignores_frame_ticks(y0, ops.drop_last(), sens);
        match ops.last() {
            Some(dx) => {
                let rest = samples_of(ops.drop_last());
                assert(rest.push(dx).drop_last() =~= rest);
                assert(rest.push(dx).last() == dx);
            },
            None => {},
        }
    }
}

/// The yaw invariant under any interleaving of samples and ticks: once
/// within one folded turn, it stays there.
pub proof fn lemma_yaw_stays_folded(y0: int, ops: Seq<Option<int>>, sens: int)
    requires
        -FX_PI <= y0 < FX_PI,
    ensures
        -FX_PI <= yaw_after(y0, ops, sens) < FX_PI,
    decreases ops.len(),
{
    if ops.len() == 0 {
    } else {
        lemma_yaw_stays_folded(y0, ops.drop_last(), sens);
        match ops.last() {
            Some(dx) => {
                lemma_wrap_to_pi_range(
                    yaw_after(y0, ops.drop_last(), sens) + crate::fx::fx_mul(dx, sens),
                );
            },
            None => {},
        }
    }
}

/// At level pitch the normalized forward direction is exactly horizontal
/// — its vertical component is zero — and of unit length up to the
/// quantified rounding slack: its squared length differs from one square
/// unit by less than four parts in a million.
pub proof fn lemma_forward_level(yaw: int)
    requires
        -FX_PI <= yaw <= FX_PI,
    ensures
        ({
            let w = v3_unit_scale(forward_dir(yaw, 0), FX_ONE as int);
            &&& w.y == 0
            &&& 999_994_000_000 <= v3_norm_sq(w) <= 1_000_003_333_334
        }),
{
    lemma_cos_fx_range(0);
    lemma_sin_fx_range(0);
    lemma_sin_fx_range(yaw);
    lemma_cos_fx_range(yaw);
    let cy = cos_fx(yaw);
    let sy = sin_fx(yaw);
    lemma_fx_mul_one(cy);
    lemma_fx_mul_one(sy);
    let d = forward_dir(yaw, 0);
    assert(d == (V3 { x: cy, y: 0, z: sy }));
    lemma_sin_cos_not_both_small(yaw);
    assert(cy * cy >= 0 && sy * sy >= 0 && cy * cy <= 1_000_000_000_000 && sy * sy
        <= 1_000_000_000_000) by (nonlinear_arith)
        requires
            -1_000_000 <= cy <= 1_000_000,
            -1_000_000 <= sy <= 1_000_000,
    ;
    assert(cy * cy >= 360_000_000_000 || sy * sy >= 360_000_000_000) by (nonlinear_arith)
        requires
            cy >= 600_000 || cy <= -600_000 || sy >= 600_000 || sy <= -600_000,
    ;
    let nd = v3_norm_sq(d);
    assert(360_000_000_000 <= nd <= 2_000_000_000_000) by (nonlinear_arith)
        requires
            nd == d.x * d.x + d.y * d.y + d.z * d.z,
            d.x == cy,
            d.y == 0,
            d.z == sy,
            cy * cy >= 360_000_000_000 || sy * sy >= 360_000_000_000,
            0 <= cy * cy <= 1_000_000_000_000,
            0 <= sy * sy <= 1_000_000_000_000,
    ;
    lemma_sqrt_floor_bracket(nd as nat);
    let m = sqrt_floor(nd as nat) as int;
    if m <= 599_999 {
        assert((m + 1) * (m + 1) <= 360_000_000_000) by (nonlinear_arith)
            requires
                0 <= m + 1 <= 600_000,
        ;
        assert(false);
    }
    lemma_unit_scale_norm_bounds(d, FX_ONE as int);
    let w = v3_unit_scale(d, FX_ONE as int);
    assert(v3_norm_sq(w) <= 1_000_003_333_334) by (nonlinear_arith)
        requires
            m * v3_norm_sq(w) <= m * 1_000_000_000_000 + 2_000_000_000_000,
            m >= 600_000,
    ;
    assert(d.y * (FX_ONE as int) == 0);
    lemma_tdiv_mag(0, m);
}

/// Pressing forward and right together for one tick moves the camera in
/// the direction bisecting the two — the rescaled exact sum of the
/// normalized forward and right vectors — with squared displacement
/// within `[speed^2 - 6 speed, speed^2 (1 + 1/707100)]`: the magnitude is
/// the configured speed up to rounding, never the square root of two
/// times it.
pub proof fn lemma_diagonal_speed(c: Camera)
    requires
        c.wf(),
        c.is_forward_pressed,
        c.is_right_pressed,
        !c.is_backward_pressed,
        !c.is_left_pressed,
        !c.is_up_pressed,
        !c.is_down_pressed,
    ensures
        ({
            let f = v3_unit_scale(
                forward_dir(c.yaw as int, c.pitch as int),
                FX_ONE as int,
            );
            let r = v3_unit_scale(v3_cross(f, c.up@), FX_ONE as int);
            let disp = v3_unit_scale(c.movement_vec(), c.speed as int);
            &&& c.movement_vec() == v3_add(f, r)
            &&& v3_norm_sq(disp) >= c.speed * c.speed - 6 * c.speed
            &&& 707_100 * v3_norm_sq(disp) <= 707_101 * (c.speed * c.speed)
            &&& c.speed >= 1 ==> v3_norm_sq(disp) < 2 * (c.speed * c.speed)
        }),
{
    let yaw = c.yaw as int;
    let pitch = c.pitch as int;
    let s = c.speed as int;
    lemma_dir_good(yaw, pitch);
    lemma_frame_good(yaw, pitch, c.up@);
    let d = forward_dir(yaw, pitch);
    let nd = v3_norm_sq(d);
    lemma_sqrt_floor_bracket(nd as nat);
    let md = sqrt_floor(nd as nat) as int;
    if md <= 5_999 {
        assert((md + 1) * (md + 1) <= 36_000_000) by (nonlinear_arith)
            requires
                0 <= md + 1 <= 6_000,
        ;
        assert(false);
    }
    let f = v3_unit_scale(d, FX_ONE as int);
    lemma_unit_scale_norm_bounds(d, FX_ONE as int);
    lemma_unit_scale_in_range(d, FX_ONE as int);
    let nf = v3_norm_sq(f);
    assert(nf <= 1_000_333_333_334) by (nonlinear_arith)
        requires
            md * nf <= md * 1_000_000_000_000 + 2_000_000_000_000,
            md >= 6_000,
    ;
    lemma_fx_mul_one(f.x);
    lemma_fx_mul_one(f.z);
    let cr = v3_cross(f, c.up@);
    assert(cr == (V3 { x: -f.z, y: 0, z: f.x }));
    let ncr = v3_norm_sq(cr);
    assert(ncr <= nf) by (nonlinear_arith)
        requires
            ncr == cr.x * cr.x + cr.y * cr.y + cr.z * cr.z,
            nf == f.x * f.x + f.y * f.y + f.z * f.z,
            cr.x == -f.z,
            cr.y == 0,
            cr.z == f.x,
    ;
    lemma_sqrt_floor_bracket(ncr as nat);
    let mc = sqrt_floor(ncr as nat) as int;
    if mc <= 2_999 {
        assert((mc + 1) * (mc + 1) <= 9_000_000) by (nonlinear_arith)
            requires
                0 <= mc + 1 <= 3_000,
        ;
        assert(false);
    }
    let r = v3_unit_scale(cr, FX_ONE as int);
    lemma_unit_scale_norm_bounds(cr, FX_ONE as int);
    lemma_unit_scale_in_range(cr, FX_ONE as int);
    let nr = v3_norm_sq(r);
    assert(nr <= 1_000_666_666_667) by (nonlinear_arith)
        requires
            mc * nr <= mc * 1_000_000_000_000 + 2_000_000_000_000,
            mc >= 3_000,
    ;
    // The raw dot product of the frame vectors almost cancels: the right
    // vector is the rescaled rotation of the forward's horizontal part.
    assert(cr.y * (FX_ONE as int) == 0);
    lemma_tdiv_mag(0, mc);
    assert(r.y == 0);
    lemma_tdiv_close(cr.x * (FX_ONE as int), mc);
    lemma_tdiv_close(cr.z * (FX_ONE as int), mc);
    let dot = f.x * r.x + f.y * r.y + f.z * r.z;
    let e1 = mc * r.x - cr.x * 1_000_000;
    let e3 = mc * r.z - cr.z * 1_000_000;
    assert(-mc < e1 < mc && -mc < e3 < mc);
    assert(mc * dot == f.x * e1 + f.z * e3) by (nonlinear_arith)
        requires
            dot == f.x * r.x + f.y * r.y + f.z * r.z,
            r.y == 0,
            e1 == mc * r.x - cr.x * 1_000_000,
            e3 == mc * r.z - cr.z * 1_000_000,
            cr.x == -f.z,
            cr.z == f.x,
    ;
    assert(-(1_000_000 * mc) <= f.x * e1 <= 1_000_000 * mc && -(1_000_000 * mc) <= f.z * e3
        <= 1_000_000 * mc) by (nonlinear_arith)
        requires
            -1_000_000 <= f.x <= 1_000_000,
            -1_000_000 <= f.z <= 1_000_000,
            -mc <= e1 <= mc,
            -mc <= e3 <= mc,
    ;
    assert(-2_000_000 <= dot <= 2_000_000) by (nonlinear_arith)
        requires
            mc * dot == f.x * e1 + f.z * e3,
            -(1_000_000 * mc) <= f.x * e1 <= 1_000_000 * mc,
            -(1_000_000 * mc) <= f.z * e3 <= 1_000_000 * mc,
            1 <= mc,
    ;
    // The movement vector is exactly the sum of the two frame vectors.
    lemma_coeff_cases(f);
    lemma_coeff_cases(r);
    lemma_coeff_cases(c.up@);
    let mv = c.movement_vec();
    assert(mv == v3_add(f, r));
    let nmv = v3_norm_sq(mv);
    assert(nmv == nf + nr + 2 * dot) by (nonlinear_arith)
        requires
            mv.x == f.x + r.x,
            mv.y == f.y + r.y,
            mv.z == f.z + r.z,
            nmv == mv.x * mv.x + mv.y * mv.y + mv.z * mv.z,
            nf == f.x * f.x + f.y * f.y + f.z * f.z,
            nr == r.x * r.x + r.y * r.y + r.z * r.z,
            dot == f.x * r.x + f.y * r.y + f.z * r.z,
    ;
    assert(1_999_984_000_000 <= nmv <= 2_001_004_000_001);
    lemma_sqrt_floor_bracket(nmv as nat);
    let mm = sqrt_floor(nmv as nat) as int;
    if mm <= 1_414_199 {
        assert((mm + 1) * (mm + 1) <= 1_999_961_640_000) by (nonlinear_arith)
            requires
                0 <= mm + 1 <= 1_414_200,
        ;
        assert(false);
    }
    lemma_unit_scale_norm_bounds(mv, s);
    let disp = v3_unit_scale(mv, s);
    assert(v3_norm_sq(disp) >= 0) by (nonlinear_arith)
        requires
            v3_norm_sq(disp) == disp.x * disp.x + disp.y * disp.y + disp.z * disp.z,
    ;
    assert(707_100 * v3_norm_sq(disp) <= 707_101 * (s * s)) by (nonlinear_arith)
        requires
            mm * v3_norm_sq(disp) <= mm * (s * s) + 2 * (s * s),
            mm >= 1_414_200,
            0 <= s,
            0 <= v3_norm_sq(disp),
    ;
    assert(s >= 1 ==> v3_norm_sq(disp) < 2 * (s * s)) by (nonlinear_arith)
        requires
            707_100 * v3_norm_sq(disp) <= 707_101 * (s * s),
            0 <= s,
    ;
}

/// Opposed keys cancel exactly: whenever each pressed direction is
/// matched by its opposite, the tick moves the camera nowhere.
pub proof fn lemma_opposed_keys_cancel(c: Camera)
    requires
        c.is_forward_pressed == c.is_backward_pressed,
        c.is_left_pressed == c.is_right_pressed,
        c.is_up_pressed == c.is_down_pressed,
    ensures
        c.tick_pos() == c.pos@,
{
    let f = v3_unit_scale(forward_dir(c.yaw as int, c.pitch as int), FX_ONE as int);
    let r = v3_unit_scale(v3_cross(f, c.up@), FX_ONE as int);
    lemma_coeff_cases(f);
    lemma_coeff_cases(r);
    lemma_coeff_cases(c.up@);
    let mv = c.movement_vec();
    assert(mv == (V3 { x: 0, y: 0, z: 0 }));
    assert(v3_norm_sq(mv) == 0) by (nonlinear_arith)
        requires
            mv.x == 0,
            mv.y == 0,
            mv.z == 0,
            v3_norm_sq(mv) == mv.x * mv.x + mv.y * mv.y + mv.z * mv.z,
    ;
}

} // verus!

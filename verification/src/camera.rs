//! The fly-camera: orientation, input state and the cached view-projection
//! transform.
//!
//! The camera owns a world position, yaw and pitch angles, projection
//! parameters and the six directional key flags.  Key events toggle the
//! flags; mouse motion turns the angles (pitch clamped away from the
//! poles, yaw folded into one turn); once per frame tick `update_camera`
//! integrates the pressed directions — normalized, so diagonal movement is
//! no faster than straight movement — and recomputes the cached matrix.
//! Every step is exact integer arithmetic pinned down by the spec
//! functions below.

use crate::fx::{
    clamp, clamp_e, fx_mul, fx_mul_e, lemma_fx_mul_one, lemma_sqrt_floor_bracket,
    lemma_tdiv_mag_lower, lemma_tdiv_shrink, sqrt_floor, tdiv, FX_ONE,
};
use crate::mat4::{
    m4_look_at, m4_look_at_e, m4_mul, m4_mul_e, m4_perspective, m4_perspective_e, Mat4Fx, M4,
    FX_ASPECT_MAX, FX_ASPECT_MIN,
};
use crate::trig::{
    cos_fx, cos_fx_e, lemma_cos_fx_lower, lemma_cos_fx_range, lemma_sin_cos_not_both_small,
    lemma_sin_fx_range, sin_fx, sin_fx_e, wrap_to_pi, wrap_to_pi_e, FX_PI,
};
use crate::vec3::{
    lemma_square_bound, v3_add, v3_clamp, v3_coeff, v3_cross, v3_in_range, v3_norm_sq,
    v3_unit_scale, Vec3Fx, V3,
};
use vstd::arithmetic::div_mod::lemma_div_nonincreasing;
use vstd::prelude::*;

verus! {

/// Distance kept between the pitch and a straight-up or straight-down
/// pole (one hundredth of a radian), avoiding the gimbal singularity.
pub const FX_PITCH_EPS: i64 = 10_000;

/// Largest admissible pitch magnitude: a quarter turn minus the guard.
pub const FX_PITCH_LIMIT: i64 = 1_560_796;

/// Largest admissible world coordinate; positions saturate here.
pub const FX_POS_LIMIT: i64 = 1_000_000_000_000;

/// Largest admissible movement speed (units per tick).
pub const FX_SPEED_MAX: i64 = 1_000_000_000;

/// Largest admissible mouse sensitivity (radians per count).
pub const FX_SENS_MAX: i64 = 1_000_000;

/// Largest admissible mouse delta magnitude per motion sample.
pub const FX_DELTA_MAX: i64 = 1_000_000_000_000;

/// Default movement speed: a tenth of a unit per tick.
pub const FX_DEFAULT_SPEED: i64 = 100_000;

/// Default mouse sensitivity: five thousandths of a radian per count.
pub const FX_DEFAULT_SENSITIVITY: i64 = 5_000;

/// The physical keys the camera understands.
#[derive(Clone, Copy, Debug, PartialEq, Eq, Structural)]
pub enum Key {
    KeyW,
    KeyA,
    KeyS,
    KeyD,
    ArrowUp,
    ArrowDown,
    ArrowLeft,
    ArrowRight,
    Space,
    ControlLeft,
    Other,
}

/// A window event as the camera sees it: a keyboard press or release, or
/// anything else (which the camera ignores).
#[derive(Clone, Copy, Debug, PartialEq, Eq, Structural)]
pub enum InputEvent {
    Keyboard { key: Key, pressed: bool },
    Other,
}

/// The camera: pose, projection parameters, input configuration, key
/// state, and the cached view-projection matrix.
#[derive(Clone, Copy, Debug)]
pub struct Camera {
    pub pos: Vec3Fx,
    pub up: Vec3Fx,
    pub yaw: i64,
    pub pitch: i64,
    pub aspect: i64,
    pub speed: i64,
    pub sensitivity: i64,
    pub is_forward_pressed: bool,
    pub is_backward_pressed: bool,
    pub is_left_pressed: bool,
    pub is_right_pressed: bool,
    pub is_up_pressed: bool,
    pub is_down_pressed: bool,
    pub view_proj: Mat4Fx,
}

/// The forward direction derived from yaw and pitch, before
/// normalization: `(cos yaw cos pitch, sin pitch, sin yaw cos pitch)`.
pub open spec fn forward_dir(yaw: int, pitch: int) -> V3 {
    V3 {
        x: fx_mul(cos_fx(yaw), cos_fx(pitch)),
        y: sin_fx(pitch),
        z: fx_mul(sin_fx(yaw), cos_fx(pitch)),
    }
}

/// The signed contribution of an opposed key pair: `+1`, `-1`, or `0`.
pub open spec fn key_coeff(pos_pressed: bool, neg_pressed: bool) -> int {
    (if pos_pressed { 1int } else { 0int }) - (if neg_pressed { 1int } else { 0int })
}

/// The yaw after one mouse-motion sample: the delta scaled by the
/// sensitivity, folded into one turn.
pub open spec fn motion_yaw(yaw: int, dx: int, sens: int) -> int {
    wrap_to_pi(yaw + fx_mul(dx, sens))
}

/// The pitch after one mouse-motion sample: the delta scaled by the
/// sensitivity (screen-up looks up), clamped away from the poles.
pub open spec fn motion_pitch(pitch: int, dy: int, sens: int) -> int {
    clamp(pitch - fx_mul(dy, sens), -FX_PITCH_LIMIT as int, FX_PITCH_LIMIT as int)
}

/// The world-up vector.
pub open spec fn world_up() -> V3 {
    V3 { x: 0, y: FX_ONE as int, z: 0 }
}

impl Camera {
    /// Well-formedness: every field within its admissible range, the up
    /// vector fixed to world up.
    pub open spec fn wf(self) -> bool {
        &&& -FX_PI <= self.yaw < FX_PI
        &&& -FX_PITCH_LIMIT <= self.pitch <= FX_PITCH_LIMIT
        &&& FX_ASPECT_MIN <= self.aspect <= FX_ASPECT_MAX
        &&& v3_in_range(self.pos@, FX_POS_LIMIT as int)
        &&& self.up@ == world_up()
        &&& 0 <= self.speed <= FX_SPEED_MAX
        &&& 0 <= self.sensitivity <= FX_SENS_MAX
    }

    /// The movement direction accumulated from the pressed keys: the
    /// signed sum of the normalized forward, the normalized right, and the
    /// world up.
    pub open spec fn movement_vec(self) -> V3 {
        let f = v3_unit_scale(forward_dir(self.yaw as int, self.pitch as int), FX_ONE as int);
        let r = v3_unit_scale(v3_cross(f, self.up@), FX_ONE as int);
        v3_add(
            v3_add(
                v3_coeff(key_coeff(self.is_forward_pressed, self.is_backward_pressed), f),
                v3_coeff(key_coeff(self.is_right_pressed, self.is_left_pressed), r),
            ),
            v3_coeff(key_coeff(self.is_up_pressed, self.is_down_pressed), self.up@),
        )
    }

    /// The position after one frame tick: unchanged when no key
    /// contributes, otherwise advanced by the movement direction rescaled
    /// to exactly the configured speed, then saturated at the world bound.
    pub open spec fn tick_pos(self) -> V3 {
        let mv = self.movement_vec();
        if v3_norm_sq(mv) == 0 {
            self.pos@
        } else {
            v3_clamp(
                v3_add(self.pos@, v3_unit_scale(mv, self.speed as int)),
                FX_POS_LIMIT as int,
            )
        }
    }

    /// The view-projection transform determined by the current state.
    pub open spec fn view_proj_spec(self) -> M4 {
        m4_mul(
            m4_perspective(self.aspect as int),
            m4_look_at(self.pos@, forward_dir(self.yaw as int, self.pitch as int), self.up@),
        )
    }

    /// The cached matrix agrees with the state: true after every update,
    /// not yet at construction.
    pub open spec fn synced(self) -> bool {
        self.view_proj@ == self.view_proj_spec()
    }
}

/// The camera after a key event: the matching flag set to the event's
/// pressed state, everything else unchanged.
pub open spec fn spec_process(c: Camera, e: InputEvent) -> Camera {
    match e {
        InputEvent::Keyboard { key, pressed } => match key {
            Key::KeyW | Key::ArrowUp => with_flags(
                c,
                pressed,
                c.is_backward_pressed,
                c.is_left_pressed,
                c.is_right_pressed,
                c.is_up_pressed,
                c.is_down_pressed,
            ),
            Key::KeyA | Key::ArrowLeft => with_flags(
                c,
                c.is_forward_pressed,
                c.is_backward_pressed,
                pressed,
                c.is_right_pressed,
                c.is_up_pressed,
                c.is_down_pressed,
            ),
            Key::KeyS | Key::ArrowDown => with_flags(
                c,
                c.is_forward_pressed,
                pressed,
                c.is_left_pressed,
                c.is_right_pressed,
                c.is_up_pressed,
                c.is_down_pressed,
            ),
            Key::KeyD | Key::ArrowRight => with_flags(
                c,
                c.is_forward_pressed,
                c.is_backward_pressed,
                c.is_left_pressed,
                pressed,
                c.is_up_pressed,
                c.is_down_pressed,
            ),
            Key::Space => with_flags(
                c,
                c.is_forward_pressed,
                c.is_backward_pressed,
                c.is_left_pressed,
                c.is_right_pressed,
                pressed,
                c.is_down_pressed,
            ),
            Key::ControlLeft => with_flags(
                c,
                c.is_forward_pressed,
                c.is_backward_pressed,
                c.is_left_pressed,
                c.is_right_pressed,
                c.is_up_pressed,
                pressed,
            ),
            Key::Other => c,
        },
        InputEvent::Other => c,
    }
}

/// Whether the camera consumes the event: exactly the recognized keys.
pub open spec fn event_consumed(e: InputEvent) -> bool {
    match e {
        InputEvent::Keyboard { key, .. } => !(key is Other),
        InputEvent::Other => false,
    }
}

/// The camera with its six key flags replaced and all other fields kept.
pub open spec fn with_flags(
    c: Camera,
    fwd: bool,
    back: bool,
    left: bool,
    right: bool,
    upward: bool,
    down: bool,
) -> Camera {
    Camera {
        pos: c.pos,
        up: c.up,
        yaw: c.yaw,
        pitch: c.pitch,
        aspect: c.aspect,
        speed: c.speed,
        sensitivity: c.sensitivity,
        is_forward_pressed: fwd,
        is_backward_pressed: back,
        is_left_pressed: left,
        is_right_pressed: right,
        is_up_pressed: upward,
        is_down_pressed: down,
        view_proj: c.view_proj,
    }
}

/// The aspect ratio of a viewport in pixels, clamped into the admissible
/// interval; a degenerate zero-height (or zero-width) viewport falls to
/// the positive floor instead of dividing by zero.
pub open spec fn aspect_ratio(w: int, h: int) -> int {
    if h <= 0 {
        FX_ASPECT_MIN as int
    } else {
        clamp(tdiv(w * FX_ONE, h), FX_ASPECT_MIN as int, FX_ASPECT_MAX as int)
    }
}

/// The clamped aspect ratio of a viewport in pixels.
pub fn aspect_ratio_e(width: u32, height: u32) -> (r: i64)
    ensures
        r as int == aspect_ratio(width as int, height as int),
        FX_ASPECT_MIN <= r <= FX_ASPECT_MAX,
{
    if height == 0 {
        FX_ASPECT_MIN
    } else {
        let num: u64 = (width as u64) * 1_000_000u64;
        proof {
            lemma_div_nonincreasing(num as int, height as int);
        }
        let q: u64 = num / (height as u64);
        clamp_e(q as i64, FX_ASPECT_MIN, FX_ASPECT_MAX)
    }
}

impl Camera {
    /// A camera five units down the negative first axis, looking along it,
    /// with level pitch, default speed and sensitivity, no key pressed,
    /// and the identity as the (not yet computed) cached matrix.
    pub fn default(aspect: i64) -> (r: Camera)
        ensures
            r.wf(),
            r.yaw == 0,
            r.pitch == 0,
            r.pos@ == (V3 { x: -5_000_000, y: 0, z: 0 }),
            r.up@ == world_up(),
            r.aspect as int == clamp(aspect as int, FX_ASPECT_MIN as int, FX_ASPECT_MAX as int),
            r.speed == FX_DEFAULT_SPEED,
            r.sensitivity == FX_DEFAULT_SENSITIVITY,
            !r.is_forward_pressed && !r.is_backward_pressed && !r.is_left_pressed
                && !r.is_right_pressed && !r.is_up_pressed && !r.is_down_pressed,
            r.view_proj@ == crate::mat4::m4_identity(),
    {
        Camera {
            pos: Vec3Fx::new(-5_000_000, 0, 0),
            up: Vec3Fx::new(0, FX_ONE, 0),
            yaw: 0,
            pitch: 0,
            aspect: clamp_e(aspect, FX_ASPECT_MIN, FX_ASPECT_MAX),
            speed: FX_DEFAULT_SPEED,
            sensitivity: FX_DEFAULT_SENSITIVITY,
            is_forward_pressed: false,
            is_backward_pressed: false,
            is_left_pressed: false,
            is_right_pressed: false,
            is_up_pressed: false,
            is_down_pressed: false,
            view_proj: Mat4Fx::identity(),
        }
    }

    /// Applies a key event: sets the flag of a recognized key to the
    /// event's pressed state and reports whether the event was consumed.
    pub fn process_events(&mut self, event: &InputEvent) -> (consumed: bool)
        ensures
            *final(self) == spec_process(*old(self), *event),
            consumed == event_consumed(*event),
            old(self).wf() ==> final(self).wf(),
    {
        match event {
            InputEvent::Keyboard { key, pressed } => {
                let p: bool = *pressed;
                match key {
                    Key::KeyW | Key::ArrowUp => {
                        self.is_forward_pressed = p;
                        true
                    },
                    Key::KeyA | Key::ArrowLeft => {
                        self.is_left_pressed = p;
                        true
                    },
                    Key::KeyS | Key::ArrowDown => {
                        self.is_backward_pressed = p;
                        true
                    },
                    Key::KeyD | Key::ArrowRight => {
                        self.is_right_pressed = p;
                        true
                    },
                    Key::Space => {
                        self.is_up_pressed = p;
                        true
                    },
                    Key::ControlLeft => {
                        self.is_down_pressed = p;
                        true
                    },
                    Key::Other => false,
                }
            },
            InputEvent::Other => false,
        }
    }

    /// Applies one raw mouse-motion sample (deltas in fixed-point counts):
    /// yaw turns with the horizontal delta, pitch against the vertical
    /// one, both scaled by the sensitivity; the pitch is clamped away from
    /// the poles.  Called once per sample, so sensitivity is independent
    /// of the frame rate.  The cached matrix is refreshed by the next
    /// frame tick, not here.
    pub fn process_mouse_motion(&mut self, dx: i64, dy: i64)
        requires
            old(self).wf(),
            -FX_DELTA_MAX <= dx <= FX_DELTA_MAX,
            -FX_DELTA_MAX <= dy <= FX_DELTA_MAX,
        ensures
            final(self).wf(),
            final(self).yaw as int == motion_yaw(
                old(self).yaw as int,
                dx as int,
                old(self).sensitivity as int,
            ),
            final(self).pitch as int == motion_pitch(
                old(self).pitch as int,
                dy as int,
                old(self).sensitivity as int,
            ),
            final(self).pos == old(self).pos,
            final(self).up == old(self).up,
            final(self).aspect == old(self).aspect,
            final(self).speed == old(self).speed,
            final(self).sensitivity == old(self).sensitivity,
            final(self).is_forward_pressed == old(self).is_forward_pressed,
            final(self).is_backward_pressed == old(self).is_backward_pressed,
            final(self).is_left_pressed == old(self).is_left_pressed,
            final(self).is_right_pressed == old(self).is_right_pressed,
            final(self).is_up_pressed == old(self).is_up_pressed,
            final(self).is_down_pressed == old(self).is_down_pressed,
            final(self).view_proj == old(self).view_proj,
    {
        proof {
            lemma_delta_mul(dx as int, self.sensitivity as int);
            lemma_delta_mul(dy as int, self.sensitivity as int);
        }
        let dyaw: i64 = fx_mul_e(dx, self.sensitivity);
        let raw_yaw: i64 = self.yaw + dyaw;
        self.yaw = wrap_to_pi_e(raw_yaw);
        let dpitch: i64 = fx_mul_e(dy, self.sensitivity);
        let raw_pitch: i64 = self.pitch - dpitch;
        self.pitch = clamp_e(raw_pitch, -FX_PITCH_LIMIT, FX_PITCH_LIMIT);
    }

    /// One frame tick: integrates the pressed directions into the
    /// position — the signed direction sum is rescaled to exactly the
    /// configured speed, so diagonals are no faster — and recomputes the
    /// cached view-projection matrix.  Angles, configuration and key
    /// flags are untouched.
    #[verifier::rlimit(80)]
    pub fn update_camera(&mut self)
        requires
            old(self).wf(),
        ensures
            final(self).wf(),
            final(self).pos@ == old(self).tick_pos(),
            final(self).synced(),
            crate::mat4::m4_in_range(final(self).view_proj@, 120_000_000_000_000_000),
            final(self).yaw == old(self).yaw,
            final(self).pitch == old(self).pitch,
            final(self).up == old(self).up,
            final(self).aspect == old(self).aspect,
            final(self).speed == old(self).speed,
            final(self).sensitivity == old(self).sensitivity,
            final(self).is_forward_pressed == old(self).is_forward_pressed,
            final(self).is_backward_pressed == old(self).is_backward_pressed,
            final(self).is_left_pressed == old(self).is_left_pressed,
            final(self).is_right_pressed == old(self).is_right_pressed,
            final(self).is_up_pressed == old(self).is_up_pressed,
            final(self).is_down_pressed == old(self).is_down_pressed,
    {
        proof {
            lemma_dir_good(self.yaw as int, self.pitch as int);
            lemma_frame_good(self.yaw as int, self.pitch as int, self.up@);
        }
        let cy: i64 = cos_fx_e(self.yaw);
        let sy: i64 = sin_fx_e(self.yaw);
        let cp: i64 = cos_fx_e(self.pitch);
        let sp: i64 = sin_fx_e(self.pitch);
        proof {
            lemma_unit_mul(cy as int, cp as int);
            lemma_unit_mul(sy as int, cp as int);
        }
        let dir: Vec3Fx = Vec3Fx::new(fx_mul_e(cy, cp), sp, fx_mul_e(sy, cp));
        let f: Vec3Fx = dir.unit_scale(FX_ONE);
        let sr: Vec3Fx = f.cross(self.up);
        let r: Vec3Fx = sr.unit_scale(FX_ONE);
        let mut movement: Vec3Fx = Vec3Fx::zero();
        if self.is_forward_pressed {
            movement = movement.vadd(f);
        }
        if self.is_backward_pressed {
            movement = movement.vsub(f);
        }
        if self.is_right_pressed {
            movement = movement.vadd(r);
        }
        if self.is_left_pressed {
            movement = movement.vsub(r);
        }
        if self.is_up_pressed {
            movement = movement.vadd(self.up);
        }
        if self.is_down_pressed {
            movement = movement.vsub(self.up);
        }
        proof {
            lemma_coeff_cases(f@);
            lemma_coeff_cases(r@);
            lemma_coeff_cases(self.up@);
            assert(movement@ == old(self).movement_vec());
        }
        let mag: i64 = movement.norm_sq();
        if mag > 0 {
            let disp: Vec3Fx = movement.unit_scale(self.speed);
            let nx: i64 = clamp_e(self.pos.x + disp.x, -FX_POS_LIMIT, FX_POS_LIMIT);
            let ny: i64 = clamp_e(self.pos.y + disp.y, -FX_POS_LIMIT, FX_POS_LIMIT);
            let nz: i64 = clamp_e(self.pos.z + disp.z, -FX_POS_LIMIT, FX_POS_LIMIT);
            self.pos = Vec3Fx::new(nx, ny, nz);
        }
        proof {
            assert(self.pos@ == old(self).tick_pos());
        }
        self.update_view_proj();
    }

    /// Recomputes the cached matrix from the current state: the
    /// perspective projection times the look-at view frame.
    fn update_view_proj(&mut self)
        requires
            old(self).wf(),
        ensures
            final(self).wf(),
            final(self).synced(),
            crate::mat4::m4_in_range(final(self).view_proj@, 120_000_000_000_000_000),
            final(self).pos == old(self).pos,
            final(self).up == old(self).up,
            final(self).yaw == old(self).yaw,
            final(self).pitch == old(self).pitch,
            final(self).aspect == old(self).aspect,
            final(self).speed == old(self).speed,
            final(self).sensitivity == old(self).sensitivity,
            final(self).is_forward_pressed == old(self).is_forward_pressed,
            final(self).is_backward_pressed == old(self).is_backward_pressed,
            final(self).is_left_pressed == old(self).is_left_pressed,
            final(self).is_right_pressed == old(self).is_right_pressed,
            final(self).is_up_pressed == old(self).is_up_pressed,
            final(self).is_down_pressed == old(self).is_down_pressed,
    {
        proof {
            lemma_dir_good(self.yaw as int, self.pitch as int);
            lemma_frame_good(self.yaw as int, self.pitch as int, self.up@);
        }
        let cy: i64 = cos_fx_e(self.yaw);
        let sy: i64 = sin_fx_e(self.yaw);
        let cp: i64 = cos_fx_e(self.pitch);
        let sp: i64 = sin_fx_e(self.pitch);
        proof {
            lemma_unit_mul(cy as int, cp as int);
            lemma_unit_mul(sy as int, cp as int);
        }
        let dir: Vec3Fx = Vec3Fx::new(fx_mul_e(cy, cp), sp, fx_mul_e(sy, cp));
        let view: Mat4Fx = m4_look_at_e(self.pos, dir, self.up);
        let proj: Mat4Fx = m4_perspective_e(self.aspect);
        self.view_proj = m4_mul_e(&proj, &view);
    }

    /// The cached view-projection matrix, as last computed.
    pub fn view_proj(&self) -> (r: Mat4Fx)
        ensures
            r == self.view_proj,
    {
        self.view_proj
    }

    /// Replaces the aspect ratio (clamped into the admissible interval)
    /// and recomputes the cached matrix at once, so a redraw right after
    /// a resize is never stale.
    pub fn update_aspect(&mut self, aspect: i64)
        requires
            old(self).wf(),
        ensures
            final(self).wf(),
            final(self).synced(),
            crate::mat4::m4_in_range(final(self).view_proj@, 120_000_000_000_000_000),
            final(self).aspect as int == clamp(
                aspect as int,
                FX_ASPECT_MIN as int,
                FX_ASPECT_MAX as int,
            ),
            final(self).pos == old(self).pos,
            final(self).up == old(self).up,
            final(self).yaw == old(self).yaw,
            final(self).pitch == old(self).pitch,
            final(self).speed == old(self).speed,
            final(self).sensitivity == old(self).sensitivity,
            final(self).is_forward_pressed == old(self).is_forward_pressed,
            final(self).is_backward_pressed == old(self).is_backward_pressed,
            final(self).is_left_pressed == old(self).is_left_pressed,
            final(self).is_right_pressed == old(self).is_right_pressed,
            final(self).is_up_pressed == old(self).is_up_pressed,
            final(self).is_down_pressed == old(self).is_down_pressed,
    {
        self.aspect = clamp_e(aspect, FX_ASPECT_MIN, FX_ASPECT_MAX);
        self.update_view_proj();
    }

    /// Handles a viewport resize: derives the clamped aspect ratio from
    /// the new pixel dimensions (zero height tolerated) and refreshes the
    /// cached matrix.
    pub fn on_resize(&mut self, width: u32, height: u32)
        requires
            old(self).wf(),
        ensures
            final(self).wf(),
            final(self).synced(),
            crate::mat4::m4_in_range(final(self).view_proj@, 120_000_000_000_000_000),
            final(self).aspect as int == aspect_ratio(width as int, height as int),
            final(self).pos == old(self).pos,
            final(self).yaw == old(self).yaw,
            final(self).pitch == old(self).pitch,
    {
        let a: i64 = aspect_ratio_e(width, height);
        self.update_aspect(a);
    }
}

/// The three small coefficient values act on a vector as identity, zero
/// and negation.
pub proof fn lemma_coeff_cases(v: V3)
    ensures
        v3_coeff(1, v) == v,
        v3_coeff(0, v) == (V3 { x: 0, y: 0, z: 0 }),
        v3_coeff(-1, v) == (V3 { x: -v.x, y: -v.y, z: -v.z }),
{
    assert(1 * v.x == v.x && 1 * v.y == v.y && 1 * v.z == v.z) by (nonlinear_arith);
    assert(0 * v.x == 0 && 0 * v.y == 0 && 0 * v.z == 0) by (nonlinear_arith);
    assert((-1) * v.x == -v.x && (-1) * v.y == -v.y && (-1) * v.z == -v.z) by (nonlinear_arith);
}

/// The product of two unit-sized fixed-point values is unit-sized.
proof fn lemma_unit_mul(a: int, b: int)
    requires
        -1_000_000 <= a <= 1_000_000,
        -1_000_000 <= b <= 1_000_000,
    ensures
        -1_000_000 <= fx_mul(a, b) <= 1_000_000,
{
    assert(-1_000_000_000_000 <= a * b <= 1_000_000_000_000) by (nonlinear_arith)
        requires
            -1_000_000 <= a <= 1_000_000,
            -1_000_000 <= b <= 1_000_000,
    ;
    lemma_tdiv_shrink(a * b, FX_ONE as int, 1_000_000);
}

/// A delta within the admissible magnitude, scaled by an admissible
/// sensitivity, stays within the delta bound.
proof fn lemma_delta_mul(d: int, s: int)
    requires
        -FX_DELTA_MAX <= d <= FX_DELTA_MAX,
        0 <= s <= FX_SENS_MAX,
    ensures
        -FX_DELTA_MAX <= fx_mul(d, s) <= FX_DELTA_MAX,
{
    assert(-1_000_000_000_000_000_000 <= d * s <= 1_000_000_000_000_000_000) by (nonlinear_arith)
        requires
            -1_000_000_000_000 <= d <= 1_000_000_000_000,
            0 <= s <= 1_000_000,
    ;
    lemma_tdiv_shrink(d * s, FX_ONE as int, FX_DELTA_MAX as int);
}

/// For a well-formed pose the forward direction is unit-sized, clearly
/// nonzero, and has a horizontal component of visible size (the pitch
/// clamp keeps the cosine of the pitch away from zero, and at any yaw one
/// of its sine and cosine is large).
pub proof fn lemma_dir_good(yaw: int, pitch: int)
    requires
        -FX_PI <= yaw <= FX_PI,
        -FX_PITCH_LIMIT <= pitch <= FX_PITCH_LIMIT,
    ensures
        v3_in_range(forward_dir(yaw, pitch), 1_000_000),
        36_000_000 <= v3_norm_sq(forward_dir(yaw, pitch)) <= 3_000_000_000_000,
        forward_dir(yaw, pitch).x >= 6_000 || forward_dir(yaw, pitch).x <= -6_000 || forward_dir(
            yaw,
            pitch,
        ).z >= 6_000 || forward_dir(yaw, pitch).z <= -6_000,
{
    let cy = cos_fx(yaw);
    let sy = sin_fx(yaw);
    let cp = cos_fx(pitch);
    let sp = sin_fx(pitch);
    lemma_sin_fx_range(yaw);
    lemma_cos_fx_range(yaw);
    lemma_sin_fx_range(pitch);
    lemma_cos_fx_range(pitch);
    lemma_cos_fx_lower(pitch, FX_PITCH_EPS as int);
    assert(16 * ((FX_PITCH_EPS as int) * (FX_PI - FX_PITCH_EPS)) * FX_ONE / (5 * FX_PI * FX_PI)
        == 10_153) by (nonlinear_arith);
    lemma_sin_cos_not_both_small(yaw);
    lemma_unit_mul(cy, cp);
    lemma_unit_mul(sy, cp);
    let d = forward_dir(yaw, pitch);
    if cy >= 600_000 {
        assert(cy * cp >= 6_000_000_000) by (nonlinear_arith)
            requires
                cy >= 600_000,
                cp >= 10_153,
        ;
        lemma_tdiv_mag_lower(cy * cp, FX_ONE as int, 6_000);
    } else if cy <= -600_000 {
        assert(cy * cp <= -6_000_000_000) by (nonlinear_arith)
            requires
                cy <= -600_000,
                cp >= 10_153,
        ;
        lemma_tdiv_mag_lower(cy * cp, FX_ONE as int, 6_000);
    } else if sy >= 600_000 {
        assert(sy * cp >= 6_000_000_000) by (nonlinear_arith)
            requires
                sy >= 600_000,
                cp >= 10_153,
        ;
        lemma_tdiv_mag_lower(sy * cp, FX_ONE as int, 6_000);
    } else {
        assert(sy <= -600_000);
        assert(sy * cp <= -6_000_000_000) by (nonlinear_arith)
            requires
                sy <= -600_000,
                cp >= 10_153,
        ;
        lemma_tdiv_mag_lower(sy * cp, FX_ONE as int, 6_000);
    }
    lemma_square_bound(d.x, 1_000_000);
    lemma_square_bound(d.y, 1_000_000);
    lemma_square_bound(d.z, 1_000_000);
    assert(d.x * d.x >= 36_000_000 || d.z * d.z >= 36_000_000) by (nonlinear_arith)
        requires
            d.x >= 6_000 || d.x <= -6_000 || d.z >= 6_000 || d.z <= -6_000,
    ;
}

/// The cross product of the normalized forward direction with world up is
/// clearly nonzero: the forward direction keeps a horizontal component of
/// visible size, which normalization preserves.
pub proof fn lemma_frame_good(yaw: int, pitch: int, up: V3)
    requires
        -FX_PI <= yaw <= FX_PI,
        -FX_PITCH_LIMIT <= pitch <= FX_PITCH_LIMIT,
        up == world_up(),
    ensures
        v3_norm_sq(
            v3_cross(v3_unit_scale(forward_dir(yaw, pitch), FX_ONE as int), up),
        ) >= 9_000_000,
{
    lemma_dir_good(yaw, pitch);
    let d = forward_dir(yaw, pitch);
    let n = v3_norm_sq(d);
    lemma_sqrt_floor_bracket(n as nat);
    let m = sqrt_floor(n as nat) as int;
    if m == 0 {
        assert((m + 1) * (m + 1) == 1) by (nonlinear_arith)
            requires
                m == 0,
        ;
        assert(false);
    }
    if m >= 1_732_051 {
        assert(m * m >= 3_000_000_000_001) by (nonlinear_arith)
            requires
                m >= 1_732_051,
        ;
        assert(false);
    }
    let f = v3_unit_scale(d, FX_ONE as int);
    lemma_fx_mul_one(f.x);
    lemma_fx_mul_one(f.y);
    lemma_fx_mul_one(f.z);
    let cr = v3_cross(f, up);
    assert(cr == (V3 { x: -f.z, y: 0, z: f.x }));
    if d.x >= 6_000 || d.x <= -6_000 {
        lemma_tdiv_mag_lower(d.x * FX_ONE, m, 3_000);
        assert(f.x >= 3_000 || f.x <= -3_000);
        assert(v3_norm_sq(cr) >= 9_000_000) by (nonlinear_arith)
            requires
                cr.x == -f.z,
                cr.y == 0,
                cr.z == f.x,
                f.x >= 3_000 || f.x <= -3_000,
        ;
    } else {
        lemma_tdiv_mag_lower(d.z * FX_ONE, m, 3_000);
        assert(f.z >= 3_000 || f.z <= -3_000);
        assert(v3_norm_sq(cr) >= 9_000_000) by (nonlinear_arith)
            requires
                cr.x == -f.z,
                cr.y == 0,
                cr.z == f.x,
                f.z >= 3_000 || f.z <= -3_000,
        ;
    }
}

} // verus!

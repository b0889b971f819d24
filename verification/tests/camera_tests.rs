use flycam::camera::{
    aspect_ratio_e, Camera, InputEvent, Key, FX_DEFAULT_SENSITIVITY, FX_DEFAULT_SPEED,
    FX_PITCH_LIMIT,
};
use flycam::fx::FX_ONE;
use flycam::mat4::{m4_look_at_e, m4_mul_e, m4_perspective_e, Mat4Fx, FX_ASPECT_MIN};
use flycam::vec3::Vec3Fx;

fn press(key: Key) -> InputEvent {
    InputEvent::Keyboard { key, pressed: true }
}

fn release(key: Key) -> InputEvent {
    InputEvent::Keyboard { key, pressed: false }
}

#[test]
fn default_state() {
    let cam = Camera::default(FX_ONE);
    assert_eq!(cam.yaw, 0);
    assert_eq!(cam.pitch, 0);
    assert_eq!((cam.pos.x, cam.pos.y, cam.pos.z), (-5_000_000, 0, 0));
    assert_eq!((cam.up.x, cam.up.y, cam.up.z), (0, FX_ONE, 0));
    assert_eq!(cam.aspect, FX_ONE);
    assert_eq!(cam.speed, FX_DEFAULT_SPEED);
    assert_eq!(cam.sensitivity, FX_DEFAULT_SENSITIVITY);
    assert!(!cam.is_forward_pressed && !cam.is_backward_pressed);
    assert!(!cam.is_left_pressed && !cam.is_right_pressed);
    assert!(!cam.is_up_pressed && !cam.is_down_pressed);
    assert_eq!(cam.view_proj().to_cols(), Mat4Fx::identity().to_cols());
}

#[test]
fn key_events_set_and_clear_flags() {
    let mut cam = Camera::default(FX_ONE);
    assert!(cam.process_events(&press(Key::KeyW)));
    assert!(cam.is_forward_pressed);
    assert!(cam.process_events(&press(Key::KeyA)));
    assert!(cam.is_left_pressed);
    assert!(cam.process_events(&press(Key::KeyS)));
    assert!(cam.is_backward_pressed);
    assert!(cam.process_events(&press(Key::KeyD)));
    assert!(cam.is_right_pressed);
    assert!(cam.process_events(&press(Key::Space)));
    assert!(cam.is_up_pressed);
    assert!(cam.process_events(&press(Key::ControlLeft)));
    assert!(cam.is_down_pressed);
    assert!(cam.process_events(&release(Key::ArrowUp)));
    assert!(!cam.is_forward_pressed);
    assert!(cam.process_events(&release(Key::ArrowLeft)));
    assert!(!cam.is_left_pressed);
    assert!(cam.process_events(&release(Key::ArrowDown)));
    assert!(!cam.is_backward_pressed);
    assert!(cam.process_events(&release(Key::ArrowRight)));
    assert!(!cam.is_right_pressed);
}

#[test]
fn unknown_events_are_not_consumed() {
    let mut cam = Camera::default(FX_ONE);
    assert!(!cam.process_events(&press(Key::Other)));
    assert!(!cam.process_events(&InputEvent::Other));
    assert!(!cam.is_forward_pressed && !cam.is_backward_pressed);
    assert_eq!(cam.yaw, 0);
}

#[test]
fn mouse_motion_turns_yaw() {
    // A horizontal delta of 100 counts at sensitivity 0.005 turns the yaw
    // by exactly half a radian.
    let mut cam = Camera::default(FX_ONE);
    cam.process_mouse_motion(100 * FX_ONE, 0);
    assert_eq!(cam.yaw, 500_000);
    assert_eq!(cam.pitch, 0);
}

#[test]
fn mouse_motion_clamps_pitch() {
    // A vertical delta of 1000 counts would pitch down five radians; the
    // pitch clamps at the pole guard instead.
    let mut cam = Camera::default(FX_ONE);
    cam.process_mouse_motion(100 * FX_ONE, 0);
    cam.process_mouse_motion(0, 1000 * FX_ONE);
    assert_eq!(cam.pitch, -FX_PITCH_LIMIT);
    assert_eq!(cam.pitch, -1_560_796);
}

#[test]
fn sensitivity_is_frame_rate_independent() {
    // One motion sample yields the same yaw no matter how many frame
    // ticks follow before the next sample.
    let mut cam1 = Camera::default(FX_ONE);
    cam1.process_mouse_motion(10 * FX_ONE, 0);
    let mut cam2 = Camera::default(FX_ONE);
    cam2.process_mouse_motion(10 * FX_ONE, 0);
    cam2.update_camera();
    cam2.update_camera();
    cam2.update_camera();
    assert_eq!(cam1.yaw, 50_000);
    assert_eq!(cam2.yaw, cam1.yaw);
    assert_eq!(cam2.pitch, cam1.pitch);
}

#[test]
fn opposed_keys_cancel() {
    let mut cam = Camera::default(FX_ONE);
    cam.process_events(&press(Key::KeyW));
    cam.process_events(&press(Key::KeyS));
    cam.update_camera();
    assert_eq!((cam.pos.x, cam.pos.y, cam.pos.z), (-5_000_000, 0, 0));
}

#[test]
fn forward_moves_by_speed() {
    let mut cam = Camera::default(FX_ONE);
    cam.process_events(&press(Key::KeyW));
    cam.update_camera();
    assert_eq!((cam.pos.x, cam.pos.y, cam.pos.z), (-4_900_000, 0, 0));
}

#[test]
fn diagonal_moves_by_speed_not_root_two() {
    let mut cam = Camera::default(FX_ONE);
    cam.process_events(&press(Key::KeyW));
    cam.process_events(&press(Key::KeyD));
    cam.update_camera();
    let dx = cam.pos.x - (-5_000_000);
    let dy = cam.pos.y;
    let dz = cam.pos.z;
    assert_eq!((dx, dy, dz), (70_710, 0, 70_710));
    let norm_sq = dx * dx + dy * dy + dz * dz;
    let speed_sq = FX_DEFAULT_SPEED * FX_DEFAULT_SPEED;
    // Magnitude is the configured speed up to rounding, far below the
    // square root of two times it.
    assert!((norm_sq - speed_sq).abs() < speed_sq / 1_000);
    assert!(norm_sq < 2 * speed_sq);
}

#[test]
fn forward_motion_is_level_at_any_yaw() {
    // After turning half a radian, one forward tick still moves the
    // camera horizontally by the configured speed (up to rounding).
    let mut cam = Camera::default(FX_ONE);
    cam.process_mouse_motion(100 * FX_ONE, 0);
    cam.process_events(&press(Key::KeyW));
    cam.update_camera();
    let dx = cam.pos.x - (-5_000_000);
    let dy = cam.pos.y;
    let dz = cam.pos.z;
    assert_eq!(dy, 0);
    let norm_sq = dx * dx + dz * dz;
    let speed_sq = FX_DEFAULT_SPEED * FX_DEFAULT_SPEED;
    assert!((norm_sq - speed_sq).abs() < speed_sq / 1_000);
}

#[test]
fn update_round_trips_with_direct_matrix() {
    // Construct at (-5, 0, 0) looking along +x, tick once with no keys:
    // the cached matrix equals the independent product of the projection
    // and the look-at view.
    let mut cam = Camera::default(FX_ONE);
    cam.update_camera();
    assert_eq!((cam.pos.x, cam.pos.y, cam.pos.z), (-5_000_000, 0, 0));
    let eye = Vec3Fx::new(-5_000_000, 0, 0);
    let dir = Vec3Fx::new(FX_ONE, 0, 0);
    let up = Vec3Fx::new(0, FX_ONE, 0);
    let view = m4_look_at_e(eye, dir, up);
    let proj = m4_perspective_e(FX_ONE);
    let expected = m4_mul_e(&proj, &view);
    assert_eq!(cam.view_proj().to_cols(), expected.to_cols());
}

#[test]
fn resize_zero_height_is_safe() {
    let mut cam = Camera::default(FX_ONE);
    cam.on_resize(800, 0);
    assert_eq!(cam.aspect, FX_ASPECT_MIN);
    for v in cam.view_proj().to_cols() {
        assert!(v.abs() <= 120_000_000_000_000_000);
    }
}

#[test]
fn resize_zero_width_is_safe() {
    let mut cam = Camera::default(FX_ONE);
    cam.on_resize(0, 600);
    assert_eq!(cam.aspect, FX_ASPECT_MIN);
    for v in cam.view_proj().to_cols() {
        assert!(v.abs() <= 120_000_000_000_000_000);
    }
}

#[test]
fn resize_sets_aspect() {
    let mut cam = Camera::default(FX_ONE);
    cam.on_resize(1600, 900);
    assert_eq!(cam.aspect, 1_777_777);
}

#[test]
fn aspect_ratio_cases() {
    assert_eq!(aspect_ratio_e(800, 600), 1_333_333);
    assert_eq!(aspect_ratio_e(0, 5), 10_000);
    assert_eq!(aspect_ratio_e(5, 0), 10_000);
    assert_eq!(aspect_ratio_e(4_000_000_000, 1), 100_000_000);
}

#[test]
fn update_aspect_refreshes_matrix() {
    let mut cam = Camera::default(FX_ONE);
    cam.update_camera();
    let before = cam.view_proj().to_cols();
    cam.update_aspect(2_000_000);
    let after = cam.view_proj().to_cols();
    assert_eq!(cam.aspect, 2_000_000);
    assert_ne!(before, after);
    // Looking along +x, the only entry fed by the focal-over-aspect term
    // is the view frame's x-row against the third view column.
    assert_eq!(before[8], 2_414_214);
    assert_eq!(after[8], 1_207_107);
    for i in 0..16 {
        if i != 8 {
            assert_eq!(before[i], after[i]);
        }
    }
}

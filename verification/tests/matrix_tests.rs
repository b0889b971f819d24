use flycam::fx::FX_ONE;
use flycam::mat4::{m4_look_at_e, m4_mul_e, m4_perspective_e, Mat4Fx, FX_ASPECT_MIN};
use flycam::vec3::Vec3Fx;

#[test]
fn identity_columns() {
    let id = Mat4Fx::identity();
    let cols = id.to_cols();
    let expected = vec![
        FX_ONE, 0, 0, 0, 0, FX_ONE, 0, 0, 0, 0, FX_ONE, 0, 0, 0, 0, FX_ONE,
    ];
    assert_eq!(cols, expected);
}

#[test]
fn perspective_square_aspect() {
    let p = m4_perspective_e(FX_ONE);
    assert_eq!(p.c0.x, 2_414_214);
    assert_eq!(p.c1.y, 2_414_214);
    assert_eq!(p.c2.z, -1_002_002);
    assert_eq!(p.c2.w, -FX_ONE);
    assert_eq!(p.c3.z, -200_200);
    assert_eq!(p.c3.w, 0);
}

#[test]
fn perspective_clamped_floor_aspect_is_finite() {
    let p = m4_perspective_e(FX_ASPECT_MIN);
    assert_eq!(p.c0.x, 241_421_400);
    for v in p.to_cols() {
        assert!(v.abs() <= 300_000_000);
    }
}

#[test]
fn look_at_axis_aligned() {
    let eye = Vec3Fx::new(-5_000_000, 0, 0);
    let dir = Vec3Fx::new(FX_ONE, 0, 0);
    let up = Vec3Fx::new(0, FX_ONE, 0);
    let m = m4_look_at_e(eye, dir, up);
    // Frame: s = +z, u = +y, f = +x.
    assert_eq!((m.c0.x, m.c0.y, m.c0.z, m.c0.w), (0, 0, -FX_ONE, 0));
    assert_eq!((m.c1.x, m.c1.y, m.c1.z, m.c1.w), (0, FX_ONE, 0, 0));
    assert_eq!((m.c2.x, m.c2.y, m.c2.z, m.c2.w), (FX_ONE, 0, 0, 0));
    assert_eq!((m.c3.x, m.c3.y, m.c3.z, m.c3.w), (0, 0, -5_000_000, FX_ONE));
}

#[test]
fn multiply_by_identity() {
    let id = Mat4Fx::identity();
    let eye = Vec3Fx::new(1_000_000, 2_000_000, 3_000_000);
    let dir = Vec3Fx::new(FX_ONE, 0, 0);
    let up = Vec3Fx::new(0, FX_ONE, 0);
    let v = m4_look_at_e(eye, dir, up);
    let prod = m4_mul_e(&id, &v);
    assert_eq!(prod.to_cols(), v.to_cols());
}

#[test]
fn unit_scale_three_four_five() {
    let v = Vec3Fx::new(3_000_000, 0, 4_000_000);
    let r = v.unit_scale(FX_ONE);
    assert_eq!((r.x, r.y, r.z), (600_000, 0, 800_000));
}

#[test]
fn cross_and_dot() {
    let x = Vec3Fx::new(FX_ONE, 0, 0);
    let y = Vec3Fx::new(0, FX_ONE, 0);
    let c = x.cross(y);
    assert_eq!((c.x, c.y, c.z), (0, 0, FX_ONE));
    assert_eq!(x.dot(y), 0);
    assert_eq!(x.dot(x), FX_ONE);
}

//! A verified fly-camera core for an interactive 3-D viewer.
//!
//! All camera state — position, yaw, pitch, projection parameters and the
//! cached view-projection matrix — is kept in exact fixed-point arithmetic
//! (signed integers counting millionths), so every update is deterministic
//! and free of overflow, division by zero, and NaN/infinity poisoning by
//! construction.  A rendering shell converts the matrix to `f32` only at the
//! GPU boundary.

pub mod camera;
pub mod fx;
pub mod laws;
pub mod trig;
pub mod mat4;
pub mod vec3;

//! A Monte Carlo path tracer over spheres, computed in fixed-point arithmetic.
//!
//! Numbers are `scalar::Scalar`s, vectors and colours `vec3::Vec3`s. A
//! `camera::Camera` turns image coordinates into `ray::Ray`s; a
//! `hitable::Hitable` scene reports the nearest surface that a ray hits; a
//! `material::Material` scatters the ray there; and `integrator::color`
//! follows the path until it leaves the scene, is absorbed, or has been
//! scattered fifty times. `render` turns the estimates of a pixel into
//! eight-bit colours, and `scene` builds a scene of random spheres.
//!
//! Every function that draws random numbers has a counterpart that takes them
//! as arguments, and states what it returns as the counterpart's result for
//! some valid draws.
pub mod camera;
pub mod hitable;
pub mod integrator;
pub mod isqrt;
pub mod material;
pub mod order;
pub mod random;
pub mod ray;
pub mod render;
pub mod scalar;
pub mod scene;
pub mod sphere;
pub mod unit_length;
pub mod vec3;

//! Rays: half-lines given by an origin and a direction.
use crate::scalar::Scalar;
use crate::vec3::Vec3;
use vstd::prelude::*;

verus! {

/// The ray `a + t * b`. The direction `b` need not have unit length.
#[derive(Clone, Copy, PartialEq, Eq, Structural, Debug)]
pub struct Ray {
    pub a: Vec3,
    pub b: Vec3,
}

impl Ray {
    /// The point of the ray at parameter `t`: the origin plus `t` times the
    /// direction.
    pub open spec fn point_at(self, t: Scalar) -> Vec3 {
        self.a.plus(self.b.scaled(t))
    }

    /// The point where the ray starts.
    pub fn origin(self) -> (r: Vec3)
        ensures
            r == self.a,
    {
        self.a
    }

    /// The direction in which the ray runs.
    pub fn direction(self) -> (r: Vec3)
        ensures
            r == self.b,
    {
        self.b
    }

    /// The point of the ray at parameter `t`, which may be negative.
    pub fn point_at_parameter(self, t: Scalar) -> (r: Vec3)
        ensures
            r == self.point_at(t),
    {
        self.a + t * self.b
    }
}

} // verus!

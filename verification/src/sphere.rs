//! Spheres, and random points of the unit ball.
use crate::hitable::{HitRecord, Hitable};
use crate::material::Surface;
use crate::random::{in_unit_interval, random_unit};
use crate::ray::Ray;
use crate::scalar::{
    lemma_over_monotonic, lemma_root_bounds, lemma_zero_times, magnitude, Scalar, SCALE,
};
use crate::vec3::{lemma_squared_norm_nonnegative, raw_product, Vec3};
use core::ops::Neg;
use vstd::arithmetic::div_mod::lemma_div_pos_is_pos;
use vstd::prelude::*;

verus! {

/// How many candidates `random_in_unit_sphere` draws before it gives up and
/// returns the centre of the ball.
pub const MAX_DRAWS: u32 = 64;

/// The point `2 (u, v, w) - (1, 1, 1)` of the cube around the unit ball.
pub open spec fn cube_point(u: Scalar, v: Scalar, w: Scalar) -> Vec3 {
    (Vec3 { e0: u, e1: v, e2: w }).scaled(Scalar::two()).minus(
        Vec3 { e0: Scalar::one(), e1: Scalar::one(), e2: Scalar::one() },
    )
}

/// Maps three numbers of `[0, 1)` to a point of the cube `[-1, 1)^3`.
pub fn point_in_cube(u: Scalar, v: Scalar, w: Scalar) -> (p: Vec3)
    ensures
        p == cube_point(u, v, w),
{
    let one = Scalar { raw: SCALE };
    Scalar { raw: 2 * SCALE } * Vec3::new(u, v, w) - Vec3::new(one, one, one)
}

/// A random point of the open unit ball, by rejection: candidates are drawn
/// uniformly from the surrounding cube until one falls inside the ball. After
/// `MAX_DRAWS` rejected candidates the centre of the ball is returned.
pub fn random_in_unit_sphere() -> (p: Vec3)
    ensures
        p.squared_norm().raw < SCALE,
        exists|u: Scalar, v: Scalar, w: Scalar|
            in_unit_interval(u) && in_unit_interval(v) && in_unit_interval(w) && p
                == #[trigger] cube_point(u, v, w),
{
    let mut tries: u32 = 0;
    while tries < MAX_DRAWS
        invariant
            tries <= MAX_DRAWS,
        decreases MAX_DRAWS - tries,
    {
        let p = point_in_cube(random_unit(), random_unit(), random_unit());
        if p.squared_length() < (Scalar { raw: SCALE }) {
            return p;
        }
        tries = tries + 1;
    }
    let half = Scalar { raw: SCALE / 2 };
    let centre = point_in_cube(half, half, half);
    proof {
        lemma_centre_of_cube();
        lemma_zero_times(Scalar::zero());
    }
    centre
}

/// The centre of the cube, the image of `(0.5, 0.5, 0.5)`, is the zero vector.
pub proof fn lemma_centre_of_cube()
    ensures
        cube_point(Scalar { raw: 0x8000_0000 }, Scalar { raw: 0x8000_0000 }, Scalar { raw: 0x8000_0000 })
            == (Vec3 { e0: Scalar::zero(), e1: Scalar::zero(), e2: Scalar::zero() }),
{
    assert(0x8000_0000int * 0x2_0000_0000int == 0x1_0000_0000int * 0x1_0000_0000int)
        by (nonlinear_arith);
    assert((0x1_0000_0000int * 0x1_0000_0000int) / 0x1_0000_0000int == 0x1_0000_0000int)
        by (nonlinear_arith);
}

/// A sphere with its material. A negative radius turns the normal inward.
#[derive(Clone, Copy, PartialEq, Eq, Structural, Debug)]
pub struct Sphere {
    pub center: Vec3,
    pub radius: Scalar,
    pub material: Surface,
}

impl Sphere {
    /// The vector from the centre to the ray's origin.
    pub open spec fn offset(self, r: Ray) -> Vec3 {
        r.a.minus(self.center)
    }

    /// The leading coefficient of the quadratic: `d . d`.
    pub open spec fn quad_a(r: Ray) -> Scalar {
        r.b.dot_product(r.b)
    }

    /// Half the linear coefficient of the quadratic: `oc . d`.
    pub open spec fn quad_b(self, r: Ray) -> Scalar {
        self.offset(r).dot_product(r.b)
    }

    /// The constant coefficient of the quadratic: `oc . oc - r^2`.
    pub open spec fn quad_c(self, r: Ray) -> Scalar {
        self.offset(r).dot_product(self.offset(r)).minus(self.radius.times(self.radius))
    }

    /// A quarter of the quadratic's discriminant: `b^2 - a c`.
    pub open spec fn discriminant(self, r: Ray) -> Scalar {
        self.quad_b(r).times(self.quad_b(r)).minus(Self::quad_a(r).times(self.quad_c(r)))
    }

    /// The smaller root: `(-b - sqrt(discriminant)) / a`.
    pub open spec fn near_root(self, r: Ray) -> Scalar {
        self.quad_b(r).negated().minus(self.discriminant(r).root()).over(Self::quad_a(r))
    }

    /// The larger root: `(-b + sqrt(discriminant)) / a`.
    pub open spec fn far_root(self, r: Ray) -> Scalar {
        self.quad_b(r).negated().plus(self.discriminant(r).root()).over(Self::quad_a(r))
    }

    /// The record of a hit at parameter `t`: the normal is the vector from
    /// the centre to the point, divided by the radius.
    pub open spec fn record_at(self, r: Ray, t: Scalar) -> HitRecord {
        let p = r.point_at(t);
        HitRecord { t, p, normal: p.minus(self.center).divided(self.radius), material: self.material }
    }

    /// Builds the record of a hit at parameter `t`.
    fn record(&self, r: Ray, t: Scalar) -> (rec: HitRecord)
        ensures
            rec == self.record_at(r, t),
    {
        let p = r.point_at_parameter(t);
        HitRecord { t, p, normal: (p - self.center) / self.radius, material: self.material }
    }
}

/// The smaller root of a sphere's quadratic does not exceed the larger one.
pub proof fn lemma_roots_ordered(s: Sphere, r: Ray)
    ensures
        s.near_root(r).raw <= s.far_root(r).raw,
{
    lemma_root_bounds(s.discriminant(r));
    lemma_squared_norm_nonnegative(r.b);
    let nb = s.quad_b(r).negated();
    let root = s.discriminant(r).root();
    lemma_over_monotonic(nb.minus(root), nb.plus(root), Sphere::quad_a(r));
}

/// A hit of a sphere lies at one of the two roots, strictly inside the
/// interval; its point is the ray's point at that parameter, its normal is
/// radial (the vector from the centre to the point, divided by the radius),
/// and its material is the sphere's.
pub proof fn lemma_sphere_hit_record(s: Sphere, r: Ray, t_min: Scalar, t_max: Scalar)
    ensures
        s.hit_spec(r, t_min, t_max) matches Some(h) ==> {
            &&& s.discriminant(r).raw > 0
            &&& h.t == s.near_root(r) || h.t == s.far_root(r)
            &&& t_min.raw < h.t.raw < t_max.raw
            &&& h.p == r.point_at(h.t)
            &&& h.normal == h.p.minus(s.center).divided(s.radius)
            &&& h.material == s.material
        },
        s.hit_spec(r, t_min, t_max) is None <==> {
            ||| s.discriminant(r).raw <= 0
            ||| {
                &&& !(t_min.raw < s.near_root(r).raw < t_max.raw)
                &&& !(t_min.raw < s.far_root(r).raw < t_max.raw)
            }
        },
{
}

/// A number times its quotient by `r` has the sign of `r`, or is zero.
proof fn lemma_radial_product(d: Scalar, r: Scalar)
    ensures
        r.raw > 0 ==> raw_product(d.raw as int, d.over(r).raw as int) >= 0,
        r.raw < 0 ==> raw_product(d.raw as int, d.over(r).raw as int) <= 0,
{
    let s = SCALE as int;
    let n = d.raw * s;
    assert((d.raw >= 0 ==> n >= 0) && (d.raw <= 0 ==> n <= 0)) by (nonlinear_arith)
        requires
            n == d.raw * s,
            s > 0,
    ;
    if r.raw != 0 {
        lemma_div_pos_is_pos(magnitude(n), magnitude(r.raw as int));
        let q = d.over(r).raw as int;
        let p = d.raw * q;
        assert((r.raw > 0 ==> p >= 0) && (r.raw < 0 ==> p <= 0)) by (nonlinear_arith)
            requires
                p == d.raw * q,
                r.raw > 0 ==> (d.raw >= 0 ==> q >= 0) && (d.raw <= 0 ==> q <= 0),
                r.raw < 0 ==> (d.raw >= 0 ==> q <= 0) && (d.raw <= 0 ==> q >= 0),
        ;
        lemma_div_pos_is_pos(magnitude(p), s);
    }
}

/// The normal of a hit points away from the centre of a sphere of positive
/// radius and toward the centre of a sphere of negative radius: the dot
/// product of the normal with the vector from the centre to the hit point
/// has the sign of the radius, or is zero.
pub proof fn lemma_sphere_normal_is_outward(s: Sphere, r: Ray, t_min: Scalar, t_max: Scalar)
    ensures
        s.hit_spec(r, t_min, t_max) matches Some(h) ==> {
            &&& s.radius.raw > 0 ==> h.p.minus(s.center).dot_product(h.normal).raw >= 0
            &&& s.radius.raw < 0 ==> h.p.minus(s.center).dot_product(h.normal).raw <= 0
        },
{
    if let Some(h) = s.hit_spec(r, t_min, t_max) {
        let d = h.p.minus(s.center);
        lemma_radial_product(d.e0, s.radius);
        lemma_radial_product(d.e1, s.radius);
        lemma_radial_product(d.e2, s.radius);
    }
}

impl Hitable for Sphere {
    /// The nearer intersection if it lies in the interval, else the farther
    /// one if that does; none where the discriminant is not positive.
    open spec fn hit_spec(&self, r: Ray, t_min: Scalar, t_max: Scalar) -> Option<HitRecord> {
        if self.discriminant(r).raw > 0 {
            if t_min.raw < self.near_root(r).raw < t_max.raw {
                Some(self.record_at(r, self.near_root(r)))
            } else if t_min.raw < self.far_root(r).raw < t_max.raw {
                Some(self.record_at(r, self.far_root(r)))
            } else {
                None
            }
        } else {
            None
        }
    }

    proof fn lemma_hit_on_ray(&self, r: Ray, t_min: Scalar, t_max: Scalar) {
    }

    proof fn lemma_hit_narrowed(&self, r: Ray, t_min: Scalar, bound: Scalar, t_max: Scalar) {
        lemma_roots_ordered(*self, r);
    }

    fn hit(&self, r: Ray, t_min: Scalar, t_max: Scalar) -> (rec: Option<HitRecord>)
        ensures
            rec matches Some(h) ==> {
                &&& h.normal == h.p.minus(self.center).divided(self.radius)
                &&& h.material == self.material
            },
    {
        let oc = r.origin() - self.center;
        let a = r.direction().dot(r.direction());
        let b = oc.dot(r.direction());
        let c = oc.dot(oc) - self.radius * self.radius;
        let discriminant = b * b - a * c;
        if discriminant > (Scalar { raw: 0 }) {
            let root = discriminant.sqrt();
            let near = (b.neg() - root) / a;
            if near < t_max && near > t_min {
                return Some(self.record(r, near));
            }
            let far = (b.neg() + root) / a;
            if far < t_max && far > t_min {
                return Some(self.record(r, far));
            }
        }
        None
    }
}

} // verus!

//! Cameras: from image-plane coordinates to rays.
use crate::random::{in_unit_interval, random_unit};
use crate::ray::Ray;
use crate::scalar::{lemma_times_one, lemma_zero_times, Scalar, SCALE};
use crate::sphere::MAX_DRAWS;
use crate::vec3::{unit_vector, Vec3};
use vstd::prelude::*;

verus! {

/// The point lies in the open unit disk of the plane `z = 0`.
pub open spec fn in_unit_disk(p: Vec3) -> bool {
    &&& p.e2.raw == 0
    &&& p.dot_product(p).raw < SCALE
}

/// The point `2 (u, v, 0) - (1, 1, 0)` of the square around the unit disk.
pub open spec fn square_point(u: Scalar, v: Scalar) -> Vec3 {
    (Vec3 { e0: u, e1: v, e2: Scalar::zero() }).scaled(Scalar::two()).minus(
        Vec3 { e0: Scalar::one(), e1: Scalar::one(), e2: Scalar::zero() },
    )
}

/// Maps two numbers of `[0, 1)` to a point of the square `[-1, 1)^2` in the
/// plane `z = 0`.
pub fn point_in_square(u: Scalar, v: Scalar) -> (p: Vec3)
    ensures
        p == square_point(u, v),
        p.e2.raw == 0,
{
    let zero = Scalar { raw: 0 };
    let one = Scalar { raw: SCALE };
    proof {
        lemma_zero_times(Scalar::two());
    }
    Scalar { raw: 2 * SCALE } * Vec3::new(u, v, zero) - Vec3::new(one, one, zero)
}

/// A random point of the open unit disk, by rejection: candidates are drawn
/// uniformly from the surrounding square until one falls inside the disk.
/// After `MAX_DRAWS` rejected candidates the centre is returned.
pub fn random_in_unit_disk() -> (p: Vec3)
    ensures
        in_unit_disk(p),
        exists|u: Scalar, v: Scalar|
            in_unit_interval(u) && in_unit_interval(v) && p == #[trigger] square_point(u, v),
{
    let mut tries: u32 = 0;
    while tries < MAX_DRAWS
        invariant
            tries <= MAX_DRAWS,
        decreases MAX_DRAWS - tries,
    {
        let p = point_in_square(random_unit(), random_unit());
        if p.dot(p) < (Scalar { raw: SCALE }) {
            return p;
        }
        tries = tries + 1;
    }
    let half = Scalar { raw: SCALE / 2 };
    let centre = point_in_square(half, half);
    proof {
        lemma_centre_of_square();
        lemma_zero_times(Scalar::zero());
    }
    centre
}

/// The centre of the square, the image of `(0.5, 0.5)`, is the zero vector.
pub proof fn lemma_centre_of_square()
    ensures
        square_point(Scalar { raw: 0x8000_0000 }, Scalar { raw: 0x8000_0000 }) == (Vec3 {
            e0: Scalar::zero(),
            e1: Scalar::zero(),
            e2: Scalar::zero(),
        }),
{
    assert(0x8000_0000int * 0x2_0000_0000int == 0x1_0000_0000int * 0x1_0000_0000int)
        by (nonlinear_arith);
    assert((0x1_0000_0000int * 0x1_0000_0000int) / 0x1_0000_0000int == 0x1_0000_0000int)
        by (nonlinear_arith);
    lemma_zero_times(Scalar::two());
}

/// The viewing direction reversed, at unit length: from `lookat` to
/// `lookfrom`.
pub open spec fn basis_w(lookfrom: Vec3, lookat: Vec3) -> Vec3 {
    lookfrom.minus(lookat).unit()
}

/// The camera's right-hand direction, at unit length.
pub open spec fn basis_u(lookfrom: Vec3, lookat: Vec3, vup: Vec3) -> Vec3 {
    vup.cross_product(basis_w(lookfrom, lookat)).unit()
}

/// The camera's upward direction.
pub open spec fn basis_v(lookfrom: Vec3, lookat: Vec3, vup: Vec3) -> Vec3 {
    basis_w(lookfrom, lookat).cross_product(basis_u(lookfrom, lookat, vup))
}

/// The point of the image plane at the coordinates `(s, t)`.
pub open spec fn plane_point(
    lower_left_corner: Vec3,
    horizontal: Vec3,
    vertical: Vec3,
    s: Scalar,
    t: Scalar,
) -> Vec3 {
    lower_left_corner.plus(horizontal.scaled(s)).plus(vertical.scaled(t))
}

/// Something that turns image-plane coordinates into rays.
pub trait Camera {
    /// The ray for the image-plane coordinates `(s, t)` that leaves the lens
    /// at the point `lens` of the unit disk.
    spec fn ray_through(&self, s: Scalar, t: Scalar, lens: Vec3) -> Ray;

    /// The ray for `(s, t)` through the given point of the lens.
    fn get_ray_through(&self, s: Scalar, t: Scalar, lens: Vec3) -> (r: Ray)
        ensures
            r == self.ray_through(s, t, lens),
    ;

    /// The ray for `(s, t)` through a random point of the lens.
    fn get_ray(&self, s: Scalar, t: Scalar) -> (r: Ray)
        ensures
            exists|lens: Vec3| in_unit_disk(lens) && r == #[trigger] self.ray_through(s, t, lens),
    ;
}

/// A pinhole camera: every ray starts at `origin`, and everything is in
/// focus.
#[derive(Clone, Copy, PartialEq, Eq, Structural, Debug)]
pub struct NoBlurCamera {
    pub origin: Vec3,
    pub lower_left_corner: Vec3,
    pub horizontal: Vec3,
    pub vertical: Vec3,
}

impl NoBlurCamera {
    /// The camera at `lookfrom` that looks at `lookat` with `vup` upward,
    /// whose image plane at distance one is `2 half_height` high and `aspect`
    /// times as wide.
    pub open spec fn framed(
        lookfrom: Vec3,
        lookat: Vec3,
        vup: Vec3,
        half_height: Scalar,
        aspect: Scalar,
    ) -> NoBlurCamera {
        let half_width = aspect.times(half_height);
        let w = basis_w(lookfrom, lookat);
        let u = basis_u(lookfrom, lookat, vup);
        let v = basis_v(lookfrom, lookat, vup);
        NoBlurCamera {
            origin: lookfrom,
            lower_left_corner: lookfrom.minus(u.scaled(half_width)).minus(
                v.scaled(half_height),
            ).minus(w),
            horizontal: u.scaled(Scalar::two().times(half_width)),
            vertical: v.scaled(Scalar::two().times(half_height)),
        }
    }

    /// The ray from the origin through the point `(s, t)` of the image plane.
    pub open spec fn ray(&self, s: Scalar, t: Scalar) -> Ray {
        Ray {
            a: self.origin,
            b: plane_point(self.lower_left_corner, self.horizontal, self.vertical, s, t).minus(
                self.origin,
            ),
        }
    }

    /// Frames the scene. `half_height` is the tangent of half the vertical
    /// field of view, `aspect` the ratio of the image's width to its height.
    pub fn new(lookfrom: Vec3, lookat: Vec3, vup: Vec3, half_height: Scalar, aspect: Scalar) -> (cam:
        NoBlurCamera)
        ensures
            cam == NoBlurCamera::framed(lookfrom, lookat, vup, half_height, aspect),
    {
        let two = Scalar { raw: 2 * SCALE };
        let half_width = aspect * half_height;
        let w = unit_vector(lookfrom - lookat);
        let u = unit_vector(vup.cross(w));
        let v = w.cross(u);
        NoBlurCamera {
            lower_left_corner: lookfrom - half_width * u - half_height * v - w,
            horizontal: two * half_width * u,
            vertical: two * half_height * v,
            origin: lookfrom,
        }
    }
}

impl Camera for NoBlurCamera {
    /// The ray from the origin through `(s, t)`, whatever the lens point.
    open spec fn ray_through(&self, s: Scalar, t: Scalar, lens: Vec3) -> Ray {
        self.ray(s, t)
    }

    fn get_ray_through(&self, s: Scalar, t: Scalar, lens: Vec3) -> (r: Ray) {
        Ray {
            a: self.origin,
            b: self.lower_left_corner + s * self.horizontal + t * self.vertical - self.origin,
        }
    }

    fn get_ray(&self, s: Scalar, t: Scalar) -> (r: Ray)
        ensures
            r == self.ray(s, t),
    {
        let zero = Scalar { raw: 0 };
        let lens = Vec3::new(zero, zero, zero);
        let r = self.get_ray_through(s, t, lens);
        assert(in_unit_disk(lens) && r == self.ray_through(s, t, lens));
        r
    }
}

/// A camera with a lens of finite aperture: what lies at the focus distance
/// is sharp, the rest is blurred.
#[derive(Clone, Copy, PartialEq, Eq, Structural, Debug)]
pub struct DefocusBlurCamera {
    pub origin: Vec3,
    pub lower_left_corner: Vec3,
    pub horizontal: Vec3,
    pub vertical: Vec3,
    pub u: Vec3,
    pub v: Vec3,
    pub w: Vec3,
    pub lens_radius: Scalar,
}

impl DefocusBlurCamera {
    /// The camera at `lookfrom` that looks at `lookat` with `vup` upward,
    /// whose image plane lies at the distance `focus_dist` and whose lens has
    /// the diameter `aperture`.
    pub open spec fn framed(
        lookfrom: Vec3,
        lookat: Vec3,
        vup: Vec3,
        half_height: Scalar,
        aspect: Scalar,
        aperture: Scalar,
        focus_dist: Scalar,
    ) -> DefocusBlurCamera {
        let half_width = aspect.times(half_height);
        let w = basis_w(lookfrom, lookat);
        let u = basis_u(lookfrom, lookat, vup);
        let v = basis_v(lookfrom, lookat, vup);
        DefocusBlurCamera {
            origin: lookfrom,
            lower_left_corner: lookfrom.minus(u.scaled(half_width.times(focus_dist))).minus(
                v.scaled(half_height.times(focus_dist)),
            ).minus(w.scaled(focus_dist)),
            horizontal: u.scaled(Scalar::two().times(half_width).times(focus_dist)),
            vertical: v.scaled(Scalar::two().times(half_height).times(focus_dist)),
            u,
            v,
            w,
            lens_radius: aperture.over(Scalar::two()),
        }
    }

    /// The displacement of the ray's origin for the point `lens` of the unit
    /// disk: the point scaled by the lens radius, in the lens plane.
    pub open spec fn lens_offset(&self, lens: Vec3) -> Vec3 {
        let rd = lens.scaled(self.lens_radius);
        self.u.scaled(rd.e0).plus(self.v.scaled(rd.e1))
    }

    /// Frames the scene. `half_height` is the tangent of half the vertical
    /// field of view, `aspect` the ratio of the image's width to its height.
    pub fn new(
        lookfrom: Vec3,
        lookat: Vec3,
        vup: Vec3,
        half_height: Scalar,
        aspect: Scalar,
        aperture: Scalar,
        focus_dist: Scalar,
    ) -> (cam: DefocusBlurCamera)
        ensures
            cam == DefocusBlurCamera::framed(
                lookfrom,
                lookat,
                vup,
                half_height,
                aspect,
                aperture,
                focus_dist,
            ),
    {
        let two = Scalar { raw: 2 * SCALE };
        let half_width = aspect * half_height;
        let w = unit_vector(lookfrom - lookat);
        let u = unit_vector(vup.cross(w));
        let v = w.cross(u);
        DefocusBlurCamera {
            origin: lookfrom,
            lower_left_corner: lookfrom - half_width * focus_dist * u - half_height * focus_dist * v
                - focus_dist * w,
            horizontal: two * half_width * focus_dist * u,
            vertical: two * half_height * focus_dist * v,
            u,
            v,
            w,
            lens_radius: aperture / two,
        }
    }
}

/// Whatever point of the lens a ray of the camera leaves, it passes through
/// the same point of the focus plane at the parameter one, where nothing
/// saturates: the ray's origin plus its direction is the plane's point.
pub proof fn lemma_defocus_rays_converge(cam: DefocusBlurCamera, s: Scalar, t: Scalar, lens: Vec3)
    requires
        cam.origin.is_moderate(),
        cam.lens_offset(lens).is_moderate(),
        plane_point(cam.lower_left_corner, cam.horizontal, cam.vertical, s, t).is_moderate(),
    ensures
        cam.ray_through(s, t, lens).point_at(Scalar::one()) == plane_point(
            cam.lower_left_corner,
            cam.horizontal,
            cam.vertical,
            s,
            t,
        ),
{
    let r = cam.ray_through(s, t, lens);
    lemma_times_one(r.b.e0);
    lemma_times_one(r.b.e1);
    lemma_times_one(r.b.e2);
}

impl Camera for DefocusBlurCamera {
    /// The ray that starts at the lens point and passes through the point
    /// `(s, t)` of the focus plane.
    open spec fn ray_through(&self, s: Scalar, t: Scalar, lens: Vec3) -> Ray {
        let offset = self.lens_offset(lens);
        Ray {
            a: self.origin.plus(offset),
            b: plane_point(self.lower_left_corner, self.horizontal, self.vertical, s, t).minus(
                self.origin,
            ).minus(offset),
        }
    }

    fn get_ray_through(&self, s: Scalar, t: Scalar, lens: Vec3) -> (r: Ray) {
        let rd = self.lens_radius * lens;
        let offset = self.u * rd.x() + self.v * rd.y();
        Ray {
            a: self.origin + offset,
            b: self.lower_left_corner + s * self.horizontal + t * self.vertical - self.origin
                - offset,
        }
    }

    fn get_ray(&self, s: Scalar, t: Scalar) -> (r: Ray) {
        let lens = random_in_unit_disk();
        self.get_ray_through(s, t, lens)
    }
}

} // verus!

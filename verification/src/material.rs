//! How surfaces scatter light: diffuse, metallic and refractive materials.
use crate::hitable::HitRecord;
use crate::random::random_unit;
use crate::ray::Ray;
use crate::scalar::{Scalar, SCALE};
use crate::sphere::random_in_unit_sphere;
use crate::vec3::{unit_vector, Vec3};
use core::ops::Neg;
use vstd::prelude::*;

verus! {

/// The random part of one scatter event: a point of the open unit ball and a
/// number of `[0, 1)`.
#[derive(Clone, Copy, PartialEq, Eq, Structural, Debug)]
pub struct ScatterSample {
    pub offset: Vec3,
    pub coin: Scalar,
}

impl ScatterSample {
    /// The offset lies in the open unit ball and the coin in `[0, 1)`.
    pub open spec fn valid(self) -> bool {
        &&& self.offset.squared_norm().raw < SCALE
        &&& 0 <= self.coin.raw < SCALE
    }
}

/// The colour that leaves light unchanged.
pub open spec fn white() -> Vec3 {
    Vec3 { e0: Scalar::one(), e1: Scalar::one(), e2: Scalar::one() }
}

/// The mirror image of `v` at a surface with normal `n`: `v - 2 (v . n) n`.
pub open spec fn reflection(v: Vec3, n: Vec3) -> Vec3 {
    v.minus(n.scaled(Scalar::two().times(v.dot_product(n))))
}

/// The value under the root in Snell's law, for the unit direction `uv`:
/// `1 - k^2 (1 - (uv . n)^2)`.
pub open spec fn refraction_discriminant(uv: Vec3, n: Vec3, ni_over_nt: Scalar) -> Scalar {
    let dt = uv.dot_product(n);
    Scalar::one().minus(ni_over_nt.times(ni_over_nt).times(Scalar::one().minus(dt.times(dt))))
}

/// The direction of `v` after refraction at a surface with normal `n` and
/// ratio of indices `ni_over_nt`; none on total internal reflection.
pub open spec fn refraction(v: Vec3, n: Vec3, ni_over_nt: Scalar) -> Option<Vec3> {
    let uv = v.unit();
    let dt = uv.dot_product(n);
    let discriminant = refraction_discriminant(uv, n, ni_over_nt);
    if discriminant.raw > 0 {
        Some(uv.minus(n.scaled(dt)).scaled(ni_over_nt).minus(n.scaled(discriminant.root())))
    } else {
        None
    }
}

/// Schlick's estimate of the reflectance of a surface with the given
/// refraction index at the given cosine of the angle of incidence:
/// `r0 + (1 - r0) (1 - cosine)^5` with `r0 = ((1 - n) / (1 + n))^2`.
pub open spec fn reflectance(refraction_index: Scalar, cosine: Scalar) -> Scalar {
    let r0 = Scalar::one().minus(refraction_index).over(
        Scalar::one().plus(refraction_index),
    ).power(2);
    r0.plus(Scalar::one().minus(r0).times(Scalar::one().minus(cosine).power(5)))
}

/// Mirrors `v` at a surface with normal `n`.
pub fn reflect(v: Vec3, n: Vec3) -> (r: Vec3)
    ensures
        r == reflection(v, n),
{
    v - (Scalar { raw: 2 * SCALE } * v.dot(n)) * n
}

/// Refracts `v` at a surface with normal `n`; none on total internal
/// reflection.
pub fn refract(v: Vec3, n: Vec3, ni_over_nt: Scalar) -> (r: Option<Vec3>)
    ensures
        r == refraction(v, n, ni_over_nt),
{
    let one = Scalar { raw: SCALE };
    let uv = unit_vector(v);
    let dt = uv.dot(n);
    let discriminant = one - ni_over_nt * ni_over_nt * (one - dt * dt);
    if discriminant > (Scalar { raw: 0 }) {
        Some(ni_over_nt * (uv - n * dt) - n * discriminant.sqrt())
    } else {
        None
    }
}

/// Schlick's estimate of the reflectance.
pub fn schlick(refraction_index: Scalar, cosine: Scalar) -> (r: Scalar)
    ensures
        r == reflectance(refraction_index, cosine),
{
    let one = Scalar { raw: SCALE };
    let r0 = ((one - refraction_index) / (one + refraction_index)).powi(2);
    r0 + (one - r0) * (one - cosine).powi(5)
}

/// A law by which a surface scatters an incoming ray.
pub trait Material {
    /// The attenuation, the outgoing ray and whether the ray was scattered at
    /// all, for the incoming ray `r_in`, the hit `rec` and the random `sample`.
    spec fn scatter_spec(&self, r_in: Ray, rec: HitRecord, sample: ScatterSample) -> (
        Vec3,
        Ray,
        bool,
    );

    /// Scatters `r_in` at `rec` with the given random sample.
    fn scatter_with(&self, r_in: Ray, rec: HitRecord, sample: ScatterSample) -> (out: (
        Vec3,
        Ray,
        bool,
    ))
        ensures
            out == self.scatter_spec(r_in, rec, sample),
    ;

    /// Scatters `r_in` at `rec`, drawing the random sample itself.
    fn scatter(&self, r_in: Ray, rec: HitRecord) -> (out: (Vec3, Ray, bool))
        ensures
            exists|sample: ScatterSample|
                sample.valid() && out == #[trigger] self.scatter_spec(r_in, rec, sample),
    ;
}

/// A diffuse surface of colour `albedo`.
#[derive(Clone, Copy, PartialEq, Eq, Structural, Debug)]
pub struct Lambertian {
    pub albedo: Vec3,
}

/// A mirror of colour `albedo`, blurred by `fuzz`.
#[derive(Clone, Copy, PartialEq, Eq, Structural, Debug)]
pub struct Metal {
    pub albedo: Vec3,
    pub fuzz: Scalar,
}

/// Clear glass with the given refraction index.
#[derive(Clone, Copy, PartialEq, Eq, Structural, Debug)]
pub struct Dielectric {
    pub refraction_index: Scalar,
}

/// One of the three materials.
#[derive(Clone, Copy, PartialEq, Eq, Structural, Debug)]
pub enum Surface {
    Lambertian(Lambertian),
    Metal(Metal),
    Dielectric(Dielectric),
}

/// A sample whose offset is `offset` and whose coin is zero.
fn sample_of_offset(offset: Vec3) -> (s: ScatterSample)
    ensures
        s == (ScatterSample { offset, coin: Scalar::zero() }),
{
    ScatterSample { offset, coin: Scalar { raw: 0 } }
}

/// A sample whose offset is the zero vector and whose coin is `coin`.
fn sample_of_coin(coin: Scalar) -> (s: ScatterSample)
    requires
        0 <= coin.raw < SCALE,
    ensures
        s.valid(),
        s.coin == coin,
        s.offset == (Vec3 { e0: Scalar::zero(), e1: Scalar::zero(), e2: Scalar::zero() }),
{
    let zero = Scalar { raw: 0 };
    ScatterSample { offset: Vec3 { e0: zero, e1: zero, e2: zero }, coin }
}

impl Lambertian {
    /// Always scatters, toward a random point of the unit ball that touches
    /// the surface at the hit from outside; attenuates by the albedo.
    pub open spec fn law(&self, r_in: Ray, rec: HitRecord, sample: ScatterSample) -> (
        Vec3,
        Ray,
        bool,
    ) {
        let target = rec.p.plus(rec.normal).plus(sample.offset);
        (self.albedo, Ray { a: rec.p, b: target.minus(rec.p) }, true)
    }
}

impl Material for Lambertian {
    open spec fn scatter_spec(&self, r_in: Ray, rec: HitRecord, sample: ScatterSample) -> (
        Vec3,
        Ray,
        bool,
    ) {
        self.law(r_in, rec, sample)
    }

    fn scatter_with(&self, r_in: Ray, rec: HitRecord, sample: ScatterSample) -> (out: (
        Vec3,
        Ray,
        bool,
    )) {
        let target = rec.p + rec.normal + sample.offset;
        (self.albedo, Ray { a: rec.p, b: target - rec.p }, true)
    }

    fn scatter(&self, r_in: Ray, rec: HitRecord) -> (out: (Vec3, Ray, bool))
        ensures
            out.2,
    {
        let sample = sample_of_offset(random_in_unit_sphere());
        self.scatter_with(r_in, rec, sample)
    }
}

impl Metal {
    /// Reflects the unit incoming direction at the normal, blurred by `fuzz`
    /// times the sample's offset; scatters only if the outgoing direction
    /// leaves the surface.
    pub open spec fn law(&self, r_in: Ray, rec: HitRecord, sample: ScatterSample) -> (
        Vec3,
        Ray,
        bool,
    ) {
        let reflected = reflection(r_in.b.unit(), rec.normal);
        let scattered = Ray { a: rec.p, b: reflected.plus(sample.offset.scaled(self.fuzz)) };
        (self.albedo, scattered, scattered.b.dot_product(rec.normal).raw > 0)
    }
}

impl Material for Metal {
    open spec fn scatter_spec(&self, r_in: Ray, rec: HitRecord, sample: ScatterSample) -> (
        Vec3,
        Ray,
        bool,
    ) {
        self.law(r_in, rec, sample)
    }

    fn scatter_with(&self, r_in: Ray, rec: HitRecord, sample: ScatterSample) -> (out: (
        Vec3,
        Ray,
        bool,
    )) {
        let reflected = reflect(unit_vector(r_in.direction()), rec.normal);
        let scattered = Ray { a: rec.p, b: reflected + self.fuzz * sample.offset };
        (self.albedo, scattered, scattered.direction().dot(rec.normal) > (Scalar { raw: 0 }))
    }

    fn scatter(&self, r_in: Ray, rec: HitRecord) -> (out: (Vec3, Ray, bool))
        ensures
            out.2 == (out.1.b.dot_product(rec.normal).raw > 0),
    {
        let sample = sample_of_offset(random_in_unit_sphere());
        self.scatter_with(r_in, rec, sample)
    }
}

impl Dielectric {
    /// Whether the ray leaves the solid: its direction points along the
    /// outward normal.
    pub open spec fn exiting(r_in: Ray, rec: HitRecord) -> bool {
        r_in.b.dot_product(rec.normal).raw > 0
    }

    /// The normal on the side from which the ray arrives.
    pub open spec fn facing_normal(r_in: Ray, rec: HitRecord) -> Vec3 {
        if Self::exiting(r_in, rec) {
            rec.normal.negated()
        } else {
            rec.normal
        }
    }

    /// The ratio of the refraction indices before and behind the surface.
    pub open spec fn index_ratio(&self, r_in: Ray, rec: HitRecord) -> Scalar {
        if Self::exiting(r_in, rec) {
            self.refraction_index
        } else {
            Scalar::one().over(self.refraction_index)
        }
    }

    /// The cosine that enters Schlick's estimate.
    pub open spec fn cosine(&self, r_in: Ray, rec: HitRecord) -> Scalar {
        let dn = r_in.b.dot_product(rec.normal);
        if Self::exiting(r_in, rec) {
            self.refraction_index.times(dn).over(r_in.b.norm())
        } else {
            Scalar::one().negated().times(dn.over(r_in.b.norm()))
        }
    }

    /// The refracted direction, if the ray can pass the surface.
    pub open spec fn refracted(&self, r_in: Ray, rec: HitRecord) -> Option<Vec3> {
        refraction(r_in.b, Self::facing_normal(r_in, rec), self.index_ratio(r_in, rec))
    }

    /// The outcome once the refracted direction, the cosine and the coin are
    /// known: refraction if it is possible and the coin is at least the
    /// reflectance, reflection otherwise.
    pub open spec fn outcome(
        &self,
        r_in: Ray,
        rec: HitRecord,
        refracted: Option<Vec3>,
        cosine: Scalar,
        coin: Scalar,
    ) -> (Vec3, Ray, bool) {
        match refracted {
            Some(direction) if coin.raw >= reflectance(self.refraction_index, cosine).raw => (
                white(),
                Ray { a: rec.p, b: direction },
                true,
            ),
            _ => (white(), Ray { a: rec.p, b: reflection(r_in.b, rec.normal) }, true),
        }
    }

    /// Always scatters without loss: refracts where Snell's law allows it and
    /// the coin is at least Schlick's reflectance, and reflects otherwise.
    pub open spec fn law(&self, r_in: Ray, rec: HitRecord, sample: ScatterSample) -> (
        Vec3,
        Ray,
        bool,
    ) {
        self.outcome(r_in, rec, self.refracted(r_in, rec), self.cosine(r_in, rec), sample.coin)
    }

    /// Computes the refracted direction, if any, and the cosine.
    fn bend(&self, r_in: Ray, rec: HitRecord) -> (out: (Option<Vec3>, Scalar))
        ensures
            out.0 == self.refracted(r_in, rec),
            out.1 == self.cosine(r_in, rec),
    {
        let one = Scalar { raw: SCALE };
        let dn = r_in.direction().dot(rec.normal);
        if dn > (Scalar { raw: 0 }) {
            let cosine = self.refraction_index * dn / r_in.direction().length();
            (refract(r_in.direction(), rec.normal.neg(), self.refraction_index), cosine)
        } else {
            let cosine = one.neg() * (dn / r_in.direction().length());
            (refract(r_in.direction(), rec.normal, one / self.refraction_index), cosine)
        }
    }

    /// Chooses between the refracted and the reflected ray.
    fn decide(
        &self,
        r_in: Ray,
        rec: HitRecord,
        refracted: Option<Vec3>,
        cosine: Scalar,
        coin: Scalar,
    ) -> (out: (Vec3, Ray, bool))
        ensures
            out == self.outcome(r_in, rec, refracted, cosine, coin),
    {
        let one = Scalar { raw: SCALE };
        let attenuation = Vec3 { e0: one, e1: one, e2: one };
        if let Some(direction) = refracted {
            if coin >= schlick(self.refraction_index, cosine) {
                return (attenuation, Ray { a: rec.p, b: direction }, true);
            }
        }
        (attenuation, Ray { a: rec.p, b: reflect(r_in.direction(), rec.normal) }, true)
    }
}

impl Material for Dielectric {
    open spec fn scatter_spec(&self, r_in: Ray, rec: HitRecord, sample: ScatterSample) -> (
        Vec3,
        Ray,
        bool,
    ) {
        self.law(r_in, rec, sample)
    }

    fn scatter_with(&self, r_in: Ray, rec: HitRecord, sample: ScatterSample) -> (out: (
        Vec3,
        Ray,
        bool,
    )) {
        let (refracted, cosine) = self.bend(r_in, rec);
        self.decide(r_in, rec, refracted, cosine, sample.coin)
    }

    fn scatter(&self, r_in: Ray, rec: HitRecord) -> (out: (Vec3, Ray, bool))
        ensures
            out.2,
            out.0 == white(),
    {
        let (refracted, cosine) = self.bend(r_in, rec);
        let coin = if refracted.is_some() {
            random_unit()
        } else {
            Scalar { raw: 0 }
        };
        let ghost sample = ScatterSample {
            offset: Vec3 { e0: Scalar::zero(), e1: Scalar::zero(), e2: Scalar::zero() },
            coin,
        };
        let out = self.decide(r_in, rec, refracted, cosine, coin);
        proof {
            lemma_zero_in_unit_ball();
            assert(sample.valid());
            assert(out == self.scatter_spec(r_in, rec, sample));
        }
        out
    }
}

/// A diffuse surface scatters every ray, and attenuates by its albedo.
pub proof fn lemma_lambertian_always_scatters(
    m: Lambertian,
    r_in: Ray,
    rec: HitRecord,
    sample: ScatterSample,
)
    ensures
        m.scatter_spec(r_in, rec, sample).2,
        m.scatter_spec(r_in, rec, sample).0 == m.albedo,
        m.scatter_spec(r_in, rec, sample).1.a == rec.p,
{
}

/// Where nothing saturates, a diffuse surface scatters in the direction of
/// the normal plus the sample's offset.
pub proof fn lemma_lambertian_direction(
    m: Lambertian,
    r_in: Ray,
    rec: HitRecord,
    sample: ScatterSample,
)
    requires
        rec.p.is_moderate(),
        rec.normal.is_moderate(),
        sample.offset.is_moderate(),
    ensures
        m.scatter_spec(r_in, rec, sample).1.b == rec.normal.plus(sample.offset),
{
}

/// A metal scatters a ray exactly when the outgoing direction points away
/// from the surface: when its dot product with the normal is positive.
pub proof fn lemma_metal_scatters_outward_only(
    m: Metal,
    r_in: Ray,
    rec: HitRecord,
    sample: ScatterSample,
)
    ensures
        m.scatter_spec(r_in, rec, sample).2 <==> m.scatter_spec(
            r_in,
            rec,
            sample,
        ).1.b.dot_product(rec.normal).raw > 0,
        m.scatter_spec(r_in, rec, sample).0 == m.albedo,
        m.scatter_spec(r_in, rec, sample).1.a == rec.p,
{
}

/// Glass scatters every ray and absorbs nothing; the outgoing ray is the
/// refracted one or the reflected one.
pub proof fn lemma_dielectric_always_scatters(
    m: Dielectric,
    r_in: Ray,
    rec: HitRecord,
    sample: ScatterSample,
)
    ensures
        m.scatter_spec(r_in, rec, sample).2,
        m.scatter_spec(r_in, rec, sample).0 == white(),
        m.scatter_spec(r_in, rec, sample).1.a == rec.p,
        m.scatter_spec(r_in, rec, sample).1.b == reflection(r_in.b, rec.normal) || Some(
            m.scatter_spec(r_in, rec, sample).1.b,
        ) == m.refracted(r_in, rec),
{
}

/// The zero vector lies in the open unit ball.
pub proof fn lemma_zero_in_unit_ball()
    ensures
        (Vec3 { e0: Scalar::zero(), e1: Scalar::zero(), e2: Scalar::zero() }).squared_norm().raw
            == 0,
{
}

impl Surface {
    /// The colour by which the surface attenuates what it scatters: the
    /// albedo of a diffuse or metal surface, white for glass.
    pub open spec fn tint(self) -> Vec3 {
        match self {
            Surface::Lambertian(m) => m.albedo,
            Surface::Metal(m) => m.albedo,
            Surface::Dielectric(_) => white(),
        }
    }

    /// The scatter law of the material that the surface is made of.
    pub open spec fn law(&self, r_in: Ray, rec: HitRecord, sample: ScatterSample) -> (
        Vec3,
        Ray,
        bool,
    ) {
        match *self {
            Surface::Lambertian(m) => m.law(r_in, rec, sample),
            Surface::Metal(m) => m.law(r_in, rec, sample),
            Surface::Dielectric(m) => m.law(r_in, rec, sample),
        }
    }
}

/// The attenuation of a scatter event does not depend on the rays or on the
/// sample: it is the surface's tint.
pub proof fn lemma_attenuation_is_tint(
    m: Surface,
    r_in: Ray,
    rec: HitRecord,
    sample: ScatterSample,
)
    ensures
        m.scatter_spec(r_in, rec, sample).0 == m.tint(),
{
}

impl Material for Surface {
    open spec fn scatter_spec(&self, r_in: Ray, rec: HitRecord, sample: ScatterSample) -> (
        Vec3,
        Ray,
        bool,
    ) {
        self.law(r_in, rec, sample)
    }

    fn scatter_with(&self, r_in: Ray, rec: HitRecord, sample: ScatterSample) -> (out: (
        Vec3,
        Ray,
        bool,
    )) {
        match self {
            Surface::Lambertian(m) => m.scatter_with(r_in, rec, sample),
            Surface::Metal(m) => m.scatter_with(r_in, rec, sample),
            Surface::Dielectric(m) => m.scatter_with(r_in, rec, sample),
        }
    }

    fn scatter(&self, r_in: Ray, rec: HitRecord) -> (out: (Vec3, Ray, bool)) {
        match self {
            Surface::Lambertian(m) => {
                let out = m.scatter(r_in, rec);
                proof {
                    let s = choose|s: ScatterSample|
                        s.valid() && out == #[trigger] m.scatter_spec(r_in, rec, s);
                    assert(out == self.scatter_spec(r_in, rec, s));
                }
                out
            },
            Surface::Metal(m) => {
                let out = m.scatter(r_in, rec);
                proof {
                    let s = choose|s: ScatterSample|
                        s.valid() && out == #[trigger] m.scatter_spec(r_in, rec, s);
                    assert(out == self.scatter_spec(r_in, rec, s));
                }
                out
            },
            Surface::Dielectric(m) => {
                let out = m.scatter(r_in, rec);
                proof {
                    let s = choose|s: ScatterSample|
                        s.valid() && out == #[trigger] m.scatter_spec(r_in, rec, s);
                    assert(out == self.scatter_spec(r_in, rec, s));
                }
                out
            },
        }
    }
}

} // verus!

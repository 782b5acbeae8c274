//! The colour that arrives along a ray: the recursive Monte Carlo estimate.
use crate::hitable::{lemma_nearest_is_minimum, Hitable, HitableList};
use crate::material::{lemma_attenuation_is_tint, white, Material, ScatterSample};
use crate::ray::Ray;
use crate::scalar::{Scalar, HALF_RAW, SCALE};
use crate::sphere::Sphere;
use crate::vec3::{lemma_unit_within_one, unit_vector, Vec3};
use vstd::arithmetic::div_mod::{
    lemma_div_by_multiple, lemma_div_is_ordered, lemma_div_pos_is_pos, lemma_fundamental_div_mod,
    lemma_mod_bound,
};
use vstd::prelude::*;

verus! {

/// The number of scatter events after which a path is cut off.
pub const MAX_DEPTH: i32 = 50;

/// The raw value of the smallest ray parameter at which a hit counts:
/// `0.001`, which keeps a scattered ray from hitting the surface it left.
pub const T_MIN_RAW: i64 = 4294967;

/// The raw value of the sky's green channel, `0.7`.
pub const SKY_GREEN_RAW: i64 = 3006477107;

/// The smallest ray parameter at which a hit counts.
pub open spec fn t_min() -> Scalar {
    Scalar { raw: T_MIN_RAW }
}

/// The colour of no light.
pub open spec fn black() -> Vec3 {
    Vec3 { e0: Scalar::zero(), e1: Scalar::zero(), e2: Scalar::zero() }
}

/// The colour of the sky straight overhead: `(0.5, 0.7, 1.0)`.
pub open spec fn sky() -> Vec3 {
    Vec3 { e0: Scalar { raw: HALF_RAW }, e1: Scalar { raw: SKY_GREEN_RAW }, e2: Scalar::one() }
}

/// The point between `from` and `to` at the fraction `t`:
/// `(1 - t) from + t to`.
pub open spec fn lerp(from: Vec3, to: Vec3, t: Scalar) -> Vec3 {
    from.scaled(Scalar::one().minus(t)).plus(to.scaled(t))
}

/// How far up a direction points, from zero for straight down to one for
/// straight up: `0.5 (y + 1)` for the `y` of the unit direction.
pub open spec fn height(direction: Vec3) -> Scalar {
    (Scalar { raw: HALF_RAW }).times(direction.unit().e1.plus(Scalar::one()))
}

/// The colour of the background in a direction: white at the bottom, the
/// sky's colour at the top, and a linear blend between.
pub open spec fn background(direction: Vec3) -> Vec3 {
    lerp(white(), sky(), height(direction))
}

/// Every sample of the sequence is valid.
pub open spec fn all_valid(samples: Seq<ScatterSample>) -> bool {
    forall|i: int| 0 <= i < samples.len() ==> (#[trigger] samples[i]).valid()
}

/// The sample for the next scatter event: the first of the sequence, or the
/// zero sample where the sequence is used up.
pub open spec fn next_sample(samples: Seq<ScatterSample>) -> ScatterSample {
    if samples.len() > 0 {
        samples[0]
    } else {
        ScatterSample { offset: black(), coin: Scalar::zero() }
    }
}

/// The samples that remain after the next scatter event.
pub open spec fn later_samples(samples: Seq<ScatterSample>) -> Seq<ScatterSample> {
    if samples.len() > 0 {
        samples.drop_first()
    } else {
        samples
    }
}

/// The colour that arrives along `r` in the scene `world` after `depth`
/// scatter events, when the scatter events that follow use the random
/// `samples` in turn: the background where the ray hits nothing; black where
/// the surface absorbs the ray or the path is `MAX_DEPTH` events long; else
/// the colour along the scattered ray, attenuated channel by channel.
pub open spec fn radiance<W: Hitable>(
    world: &W,
    r: Ray,
    depth: int,
    samples: Seq<ScatterSample>,
) -> Vec3
    decreases MAX_DEPTH - depth,
{
    match world.hit_spec(r, t_min(), Scalar::max()) {
        Some(rec) => {
            let (attenuation, scattered, did_scatter) = rec.material.law(
                r,
                rec,
                next_sample(samples),
            );
            if depth < MAX_DEPTH && did_scatter {
                attenuation.times(radiance(world, scattered, depth + 1, later_samples(samples)))
            } else {
                black()
            }
        },
        None => background(r.b),
    }
}

/// A direction points up by a fraction between zero and one.
pub proof fn lemma_height_within_unit(direction: Vec3)
    ensures
        0 <= height(direction).raw <= SCALE,
{
    lemma_unit_within_one(direction);
    let y = direction.unit().e1.raw as int;
    let sum = y + SCALE;
    assert(direction.unit().e1.plus(Scalar::one()).raw == sum);
    let p = HALF_RAW * sum;
    assert(0 <= p <= SCALE * SCALE) by (nonlinear_arith)
        requires
            p == HALF_RAW * sum,
            0 <= sum <= 2 * SCALE,
            2 * HALF_RAW == SCALE,
            SCALE > 0,
    ;
    lemma_div_pos_is_pos(p, SCALE as int);
    lemma_div_is_ordered(p, SCALE * SCALE, SCALE as int);
    lemma_div_by_multiple(SCALE as int, SCALE as int);
}

/// A blend of full intensity with the intensity `c`, at a fraction between
/// zero and one, lies between `c` and full intensity.
proof fn lemma_channel_between(c: Scalar, t: Scalar)
    requires
        0 <= c.raw <= SCALE,
        0 <= t.raw <= SCALE,
    ensures
        c.raw <= Scalar::one().times(Scalar::one().minus(t)).plus(c.times(t)).raw <= SCALE,
{
    let s = SCALE as int;
    let rest = s - t.raw;
    assert(s * rest >= 0) by (nonlinear_arith)
        requires
            s > 0,
            rest >= 0,
    ;
    assert(s * rest == rest * s) by (nonlinear_arith);
    lemma_div_by_multiple(rest, s);
    assert(Scalar::one().times(Scalar::one().minus(t)).raw == rest);
    let p = c.raw * t.raw;
    assert(0 <= p <= t.raw * s && p >= s * (c.raw + t.raw - s)) by (nonlinear_arith)
        requires
            p == c.raw * t.raw,
            0 <= c.raw <= s,
            0 <= t.raw <= s,
    ;
    let q = p / s;
    lemma_div_pos_is_pos(p, s);
    lemma_div_is_ordered(p, t.raw * s, s);
    lemma_div_by_multiple(t.raw as int, s);
    lemma_fundamental_div_mod(p, s);
    lemma_mod_bound(p, s);
    assert(q >= c.raw + t.raw - s) by (nonlinear_arith)
        requires
            p == s * q + p % s,
            0 <= p % s < s,
            p >= s * (c.raw + t.raw - s),
            s > 0,
    ;
    assert(c.times(t).raw == q);
}

/// The background lies on the segment between white and the sky's colour,
/// at a fraction that depends on the unit direction's `y` alone: channel by
/// channel it is no darker than the sky and no brighter than white.
pub proof fn lemma_background_on_segment(direction: Vec3)
    ensures
        background(direction) == lerp(white(), sky(), height(direction)),
        height(direction) == (Scalar { raw: HALF_RAW }).times(
            direction.unit().e1.plus(Scalar::one()),
        ),
        0 <= height(direction).raw <= SCALE,
        sky().e0.raw <= background(direction).e0.raw <= white().e0.raw,
        sky().e1.raw <= background(direction).e1.raw <= white().e1.raw,
        sky().e2.raw <= background(direction).e2.raw <= white().e2.raw,
{
    lemma_height_within_unit(direction);
    let t = height(direction);
    lemma_channel_between(sky().e0, t);
    lemma_channel_between(sky().e1, t);
    lemma_channel_between(sky().e2, t);
}

/// Where the ray hits nothing, the colour is the background's, whatever the
/// depth and the samples.
pub proof fn lemma_miss_shows_background<W: Hitable>(
    world: &W,
    r: Ray,
    depth: int,
    samples: Seq<ScatterSample>,
)
    requires
        world.hit_spec(r, t_min(), Scalar::max()) is None,
    ensures
        radiance(world, r, depth, samples) == background(r.b),
{
}

/// In a scene without objects every ray shows the background.
pub proof fn lemma_empty_scene_shows_background<H: Hitable>(
    world: &HitableList<H>,
    r: Ray,
    depth: int,
    samples: Seq<ScatterSample>,
)
    requires
        world.list@.len() == 0,
    ensures
        radiance(world, r, depth, samples) == background(r.b),
{
}

/// A path that is `MAX_DEPTH` scatter events long and hits a surface again
/// contributes no light, whatever the surface.
pub proof fn lemma_path_cut_off<W: Hitable>(
    world: &W,
    r: Ray,
    depth: int,
    samples: Seq<ScatterSample>,
)
    requires
        depth >= MAX_DEPTH,
        world.hit_spec(r, t_min(), Scalar::max()) is Some,
    ensures
        radiance(world, r, depth, samples) == black(),
{
}

/// No channel of the colour is negative.
pub open spec fn is_nonnegative(c: Vec3) -> bool {
    c.e0.raw >= 0 && c.e1.raw >= 0 && c.e2.raw >= 0
}

/// Every channel of the colour lies between zero and one.
pub open spec fn is_within_unit(c: Vec3) -> bool {
    0 <= c.e0.raw <= SCALE && 0 <= c.e1.raw <= SCALE && 0 <= c.e2.raw <= SCALE
}

/// Whatever a ray hits in the world attenuates by a colour without a
/// negative channel.
pub open spec fn attenuates_nonnegatively<W: Hitable>(world: &W) -> bool {
    forall|r: Ray| #[trigger]
        world.hit_spec(r, t_min(), Scalar::max()) matches Some(h) ==> is_nonnegative(
            h.material.tint(),
        )
}

/// Whatever a ray hits in the world attenuates by a colour between black and
/// white.
pub open spec fn attenuates_within_unit<W: Hitable>(world: &W) -> bool {
    forall|r: Ray| #[trigger]
        world.hit_spec(r, t_min(), Scalar::max()) matches Some(h) ==> is_within_unit(
            h.material.tint(),
        )
}

/// The product of two numbers that are not negative is not negative.
proof fn lemma_times_nonnegative(a: Scalar, b: Scalar)
    requires
        a.raw >= 0,
        b.raw >= 0,
    ensures
        a.times(b).raw >= 0,
{
    assert(a.raw * b.raw >= 0) by (nonlinear_arith)
        requires
            a.raw >= 0,
            b.raw >= 0,
    ;
    lemma_div_pos_is_pos(a.raw * b.raw, SCALE as int);
}

/// The product of two numbers between zero and one lies between zero and
/// one.
proof fn lemma_times_within_unit(a: Scalar, b: Scalar)
    requires
        0 <= a.raw <= SCALE,
        0 <= b.raw <= SCALE,
    ensures
        0 <= a.times(b).raw <= SCALE,
{
    let p = a.raw * b.raw;
    assert(0 <= p <= SCALE * SCALE) by (nonlinear_arith)
        requires
            p == a.raw * b.raw,
            0 <= a.raw <= SCALE,
            0 <= b.raw <= SCALE,
    ;
    lemma_div_pos_is_pos(p, SCALE as int);
    lemma_div_is_ordered(p, SCALE * SCALE, SCALE as int);
    lemma_div_by_multiple(SCALE as int, SCALE as int);
}

/// In a world whose surfaces attenuate by colours without a negative
/// channel, no channel of the colour along a ray is negative: its square
/// root can be taken.
pub proof fn lemma_radiance_nonnegative<W: Hitable>(
    world: &W,
    r: Ray,
    depth: int,
    samples: Seq<ScatterSample>,
)
    requires
        attenuates_nonnegatively(world),
    ensures
        is_nonnegative(radiance(world, r, depth, samples)),
    decreases MAX_DEPTH - depth,
{
    match world.hit_spec(r, t_min(), Scalar::max()) {
        Some(rec) => {
            let out = rec.material.law(r, rec, next_sample(samples));
            lemma_attenuation_is_tint(rec.material, r, rec, next_sample(samples));
            if depth < MAX_DEPTH && out.2 {
                let deeper = radiance(world, out.1, depth + 1, later_samples(samples));
                lemma_radiance_nonnegative(world, out.1, depth + 1, later_samples(samples));
                lemma_times_nonnegative(out.0.e0, deeper.e0);
                lemma_times_nonnegative(out.0.e1, deeper.e1);
                lemma_times_nonnegative(out.0.e2, deeper.e2);
            }
        },
        None => {
            lemma_background_on_segment(r.b);
        },
    }
}

/// In a world whose surfaces attenuate by colours between black and white,
/// the colour along a ray lies between black and white.
pub proof fn lemma_radiance_within_unit<W: Hitable>(
    world: &W,
    r: Ray,
    depth: int,
    samples: Seq<ScatterSample>,
)
    requires
        attenuates_within_unit(world),
    ensures
        is_within_unit(radiance(world, r, depth, samples)),
    decreases MAX_DEPTH - depth,
{
    match world.hit_spec(r, t_min(), Scalar::max()) {
        Some(rec) => {
            let out = rec.material.law(r, rec, next_sample(samples));
            lemma_attenuation_is_tint(rec.material, r, rec, next_sample(samples));
            if depth < MAX_DEPTH && out.2 {
                let deeper = radiance(world, out.1, depth + 1, later_samples(samples));
                lemma_radiance_within_unit(world, out.1, depth + 1, later_samples(samples));
                lemma_times_within_unit(out.0.e0, deeper.e0);
                lemma_times_within_unit(out.0.e1, deeper.e1);
                lemma_times_within_unit(out.0.e2, deeper.e2);
            }
        },
        None => {
            lemma_background_on_segment(r.b);
        },
    }
}

/// A list of spheres attenuates within black and white if the tint of each
/// sphere's material lies there.
pub proof fn lemma_spheres_attenuate_within_unit(world: &HitableList<Sphere>)
    requires
        forall|i: int|
            0 <= i < world.list@.len() ==> is_within_unit((#[trigger] world.list@[i]).material.tint()),
    ensures
        attenuates_within_unit(world),
        attenuates_nonnegatively(world),
{
    assert forall|r: Ray| #[trigger]
        world.hit_spec(r, t_min(), Scalar::max()) matches Some(h) ==> is_within_unit(
            h.material.tint(),
        ) by {
        lemma_nearest_is_minimum(world.list@, r, t_min(), Scalar::max());
        if let Some(h) = world.hit_spec(r, t_min(), Scalar::max()) {
            let i = choose|i: int|
                0 <= i < world.list@.len() && #[trigger] world.list@[i].hit_spec(
                    r,
                    t_min(),
                    Scalar::max(),
                ) == Some(h);
            assert(h.material == world.list@[i].material);
        }
    }
}

/// The colour of the background in a direction.
pub fn background_color(direction: Vec3) -> (c: Vec3)
    ensures
        c == background(direction),
{
    let one = Scalar { raw: SCALE };
    let unit_direction = unit_vector(direction);
    let t = Scalar { raw: HALF_RAW } * (unit_direction.y() + one);
    (one - t) * Vec3::new(one, one, one) + t * Vec3::new(
        Scalar { raw: HALF_RAW },
        Scalar { raw: SKY_GREEN_RAW },
        one,
    )
}

/// Follows the path of `r` and records the samples that its scatter events
/// drew.
fn color_traced<W: Hitable>(r: Ray, world: &W, depth: i32) -> (out: (
    Vec3,
    Ghost<Seq<ScatterSample>>,
))
    ensures
        all_valid(out.1@),
        out.0 == radiance(world, r, depth as int, out.1@),
    decreases MAX_DEPTH - depth,
{
    match world.hit(r, Scalar { raw: T_MIN_RAW }, Scalar { raw: i64::MAX }) {
        Some(rec) => {
            let (attenuation, scattered, did_scatter) = rec.material.scatter(r, rec);
            let ghost sample = choose|sample: ScatterSample|
                sample.valid() && (attenuation, scattered, did_scatter)
                    == #[trigger] rec.material.scatter_spec(r, rec, sample);
            if depth < MAX_DEPTH && did_scatter {
                let (deeper, Ghost(rest)) = color_traced(scattered, world, depth + 1);
                proof {
                    assert(later_samples(Seq::empty().push(sample) + rest) =~= rest);
                }
                let used: Ghost<Seq<ScatterSample>> = Ghost(Seq::empty().push(sample) + rest);
                (attenuation * deeper, used)
            } else {
                let zero = Scalar { raw: 0 };
                let used: Ghost<Seq<ScatterSample>> = Ghost(Seq::empty().push(sample));
                (Vec3::new(zero, zero, zero), used)
            }
        },
        None => {
            let used: Ghost<Seq<ScatterSample>> = Ghost(Seq::empty());
            (background_color(r.direction()), used)
        },
    }
}

/// The colour that arrives along `r` when the scatter events use the given
/// samples in turn, from `samples[next]` on, and the zero sample after the
/// last.
fn color_from<W: Hitable>(
    r: Ray,
    world: &W,
    depth: i32,
    samples: &Vec<ScatterSample>,
    next: usize,
) -> (c: Vec3)
    requires
        next <= samples.len(),
    ensures
        c == radiance(world, r, depth as int, samples@.skip(next as int)),
    decreases MAX_DEPTH - depth,
{
    let zero = Scalar { raw: 0 };
    match world.hit(r, Scalar { raw: T_MIN_RAW }, Scalar { raw: i64::MAX }) {
        Some(rec) => {
            let sample = if next < samples.len() {
                samples[next]
            } else {
                ScatterSample { offset: Vec3::new(zero, zero, zero), coin: zero }
            };
            let after = if next < samples.len() {
                next + 1
            } else {
                next
            };
            proof {
                assert(later_samples(samples@.skip(next as int)) =~= samples@.skip(after as int));
            }
            let (attenuation, scattered, did_scatter) = rec.material.scatter_with(r, rec, sample);
            if depth < MAX_DEPTH && did_scatter {
                attenuation * color_from(scattered, world, depth + 1, samples, after)
            } else {
                Vec3::new(zero, zero, zero)
            }
        },
        None => background_color(r.direction()),
    }
}

/// The colour that arrives along `r` in the scene `world`, for a path that is
/// `depth` scatter events long already, when the scatter events that follow
/// use the given samples in turn and the zero sample after the last.
pub fn color_with_samples<W: Hitable>(
    r: Ray,
    world: &W,
    depth: i32,
    samples: &Vec<ScatterSample>,
) -> (c: Vec3)
    ensures
        c == radiance(world, r, depth as int, samples@),
{
    assert(samples@.skip(0) =~= samples@);
    color_from(r, world, depth, samples, 0)
}

/// The colour that arrives along `r` in the scene `world`, for a path that is
/// `depth` scatter events long already. The random samples are drawn as the
/// path is followed.
pub fn color<W: Hitable>(r: Ray, world: &W, depth: i32) -> (c: Vec3)
    ensures
        exists|samples: Seq<ScatterSample>|
            all_valid(samples) && c == #[trigger] radiance(world, r, depth as int, samples),
        world.hit_spec(r, t_min(), Scalar::max()) is None ==> c == background(r.b),
        world.hit_spec(r, t_min(), Scalar::max()) is Some && depth >= MAX_DEPTH ==> c == black(),
{
    let (c, Ghost(samples)) = color_traced(r, world, depth);
    assert(all_valid(samples) && c == radiance(world, r, depth as int, samples));
    c
}

} // verus!

//! From a camera and a scene to the colour of a pixel: jittered samples,
//! their mean, gamma correction and quantisation to eight bits.
use crate::camera::{in_unit_disk, Camera};
use crate::hitable::Hitable;
use crate::integrator::{all_valid, black, color, radiance};
use crate::material::ScatterSample;
use crate::random::{in_unit_interval, random_unit};
use crate::scalar::{trunc_div, Scalar, SCALE};
use crate::vec3::Vec3;
use vstd::prelude::*;

verus! {

/// The raw value of `255.99`, the factor that takes a channel of `[0, 1]` to
/// the eight-bit range.
pub const QUANTUM_RAW: i64 = 1099468678103;

/// The whole number `i` as a fixed-point number.
pub open spec fn whole(i: i32) -> Scalar {
    Scalar { raw: (i * SCALE) as i64 }
}

/// The image-plane coordinate of a sample in the pixel row or column
/// `index` of `extent`: `(index + jitter) / extent`.
pub open spec fn image_coordinate(index: i32, jitter: Scalar, extent: i32) -> Scalar {
    whole(index).plus(jitter).over(whole(extent))
}

/// The sum of the colours, added up from the first.
pub open spec fn total(colors: Seq<Vec3>) -> Vec3
    decreases colors.len(),
{
    if colors.len() == 0 {
        black()
    } else {
        total(colors.drop_last()).plus(colors.last())
    }
}

/// The colour with the square root of each channel.
pub open spec fn gamma_corrected(c: Vec3) -> Vec3 {
    Vec3 { e0: c.e0.root(), e1: c.e1.root(), e2: c.e2.root() }
}

/// The whole part of `255.99` times the channel.
pub open spec fn quantized(x: Scalar) -> int {
    trunc_div(x.times(Scalar { raw: QUANTUM_RAW }).raw as int, SCALE as int)
}

/// The colour `c` is what arrives along some ray that the camera sends
/// through the pixel `(i, j)` of an image of `nx` by `ny` pixels, for some
/// jitter within the pixel, some point of the lens and some scatter samples.
pub open spec fn is_sample_color<C: Camera, W: Hitable>(
    cam: &C,
    world: &W,
    i: i32,
    j: i32,
    nx: i32,
    ny: i32,
    c: Vec3,
) -> bool {
    exists|ju: Scalar, jv: Scalar, lens: Vec3, samples: Seq<ScatterSample>|
        in_unit_interval(ju) && in_unit_interval(jv) && in_unit_disk(lens) && all_valid(samples)
            && c == #[trigger] radiance(
            world,
            cam.ray_through(image_coordinate(i, ju, nx), image_coordinate(j, jv, ny), lens),
            0,
            samples,
        )
}

/// The colours are `ns` sample colours of the pixel `(i, j)`; none where
/// `ns` is not positive.
pub open spec fn are_sample_colors<C: Camera, W: Hitable>(
    cam: &C,
    world: &W,
    i: i32,
    j: i32,
    nx: i32,
    ny: i32,
    ns: i32,
    colors: Seq<Vec3>,
) -> bool {
    &&& colors.len() == if ns > 0 {
        ns as int
    } else {
        0
    }
    &&& forall|k: int|
        0 <= k < colors.len() ==> is_sample_color(cam, world, i, j, nx, ny, #[trigger] colors[k])
}

/// The colour `c` is the mean of `ns` sample colours of the pixel `(i, j)`:
/// their sum divided by `ns`.
pub open spec fn is_pixel_estimate<C: Camera, W: Hitable>(
    cam: &C,
    world: &W,
    i: i32,
    j: i32,
    nx: i32,
    ny: i32,
    ns: i32,
    c: Vec3,
) -> bool {
    exists|colors: Seq<Vec3>|
        #[trigger] are_sample_colors(cam, world, i, j, nx, ny, ns, colors) && c == total(
            colors,
        ).divided(whole(ns))
}

/// The image-plane coordinate of a sample in the pixel row or column
/// `index` of `extent`.
pub fn coordinate(index: i32, jitter: Scalar, extent: i32) -> (r: Scalar)
    ensures
        r == image_coordinate(index, jitter, extent),
{
    (Scalar::from_int(index) + jitter) / Scalar::from_int(extent)
}

/// The mean of `ns` colours whose sum is `sum`.
pub fn average(sum: Vec3, ns: i32) -> (r: Vec3)
    ensures
        r == sum.divided(whole(ns)),
{
    sum / Scalar::from_int(ns)
}

/// Gamma correction: the square root of each channel.
pub fn gamma(c: Vec3) -> (r: Vec3)
    ensures
        r == gamma_corrected(c),
{
    Vec3::new(c.r().sqrt(), c.g().sqrt(), c.b().sqrt())
}

/// The eight-bit value of a channel: the whole part of `255.99` times the
/// channel.
pub fn quantize_channel(x: Scalar) -> (r: i32)
    ensures
        r == quantized(x),
{
    let scaled = x * Scalar { raw: QUANTUM_RAW };
    (scaled.raw / SCALE) as i32
}

/// The eight-bit values of the three channels.
pub fn quantize(c: Vec3) -> (r: (i32, i32, i32))
    ensures
        r.0 == quantized(c.e0),
        r.1 == quantized(c.e1),
        r.2 == quantized(c.e2),
{
    (quantize_channel(c.r()), quantize_channel(c.g()), quantize_channel(c.b()))
}

/// One sample of the pixel `(i, j)`: the colour along a ray through a random
/// point of the pixel.
pub fn sample_color<C: Camera, W: Hitable>(
    cam: &C,
    world: &W,
    i: i32,
    j: i32,
    nx: i32,
    ny: i32,
) -> (c: Vec3)
    ensures
        is_sample_color(cam, world, i, j, nx, ny, c),
{
    let ju = random_unit();
    let jv = random_unit();
    let u = coordinate(i, ju, nx);
    let v = coordinate(j, jv, ny);
    let r = cam.get_ray(u, v);
    let ghost lens = choose|lens: Vec3| in_unit_disk(lens) && r == #[trigger] cam.ray_through(u, v, lens);
    let c = color(r, world, 0);
    proof {
        let samples = choose|samples: Seq<ScatterSample>|
            all_valid(samples) && c == #[trigger] radiance(world, r, 0, samples);
        assert(c == radiance(
            world,
            cam.ray_through(image_coordinate(i, ju, nx), image_coordinate(j, jv, ny), lens),
            0,
            samples,
        ));
    }
    c
}

/// The estimate of the pixel `(i, j)`: the mean of `ns` samples.
pub fn pixel_estimate<C: Camera, W: Hitable>(
    cam: &C,
    world: &W,
    i: i32,
    j: i32,
    nx: i32,
    ny: i32,
    ns: i32,
) -> (c: Vec3)
    ensures
        is_pixel_estimate(cam, world, i, j, nx, ny, ns, c),
{
    let zero = Scalar { raw: 0 };
    let mut col = Vec3::new(zero, zero, zero);
    let ghost mut colors: Seq<Vec3> = Seq::empty();
    let mut s: i32 = 0;
    while s < ns
        invariant
            0 <= s,
            ns > 0 ==> s <= ns,
            ns <= 0 ==> s == 0,
            colors.len() == s,
            col == total(colors),
            forall|k: int|
                0 <= k < colors.len() ==> is_sample_color(cam, world, i, j, nx, ny, #[trigger] colors[k]),
        decreases ns - s,
    {
        let c = sample_color(cam, world, i, j, nx, ny);
        proof {
            let longer = colors.push(c);
            assert(longer.drop_last() =~= colors);
            colors = longer;
        }
        col.add_assign(c);
        s = s + 1;
    }
    let c = average(col, ns);
    assert(are_sample_colors(cam, world, i, j, nx, ny, ns, colors));
    assert(c == total(colors).divided(whole(ns)));
    c
}

/// The eight-bit colour of the pixel `(i, j)`: the gamma-corrected mean of
/// `ns` samples, quantised.
pub fn pixel<C: Camera, W: Hitable>(
    cam: &C,
    world: &W,
    i: i32,
    j: i32,
    nx: i32,
    ny: i32,
    ns: i32,
) -> (rgb: (i32, i32, i32))
    ensures
        exists|c: Vec3|
            {
                &&& #[trigger] is_pixel_estimate(cam, world, i, j, nx, ny, ns, c)
                &&& rgb.0 == quantized(gamma_corrected(c).e0)
                &&& rgb.1 == quantized(gamma_corrected(c).e1)
                &&& rgb.2 == quantized(gamma_corrected(c).e2)
            },
{
    let c = pixel_estimate(cam, world, i, j, nx, ny, ns);
    quantize(gamma(c))
}

} // verus!

//! A scene to render: a large ground sphere, a field of small spheres placed
//! and painted at random, and three large spheres of the three materials.
use crate::material::{Dielectric, Lambertian, Metal, Surface};
use crate::random::{in_unit_interval, random_unit};
use crate::scalar::{Scalar, HALF_RAW, SCALE};
use crate::sphere::Sphere;
use crate::vec3::Vec3;
use vstd::prelude::*;

verus! {

/// The grid of small spheres runs from this coordinate ...
pub const GRID_FROM: i32 = -11;

/// ... up to, but not including, this one, along both `x` and `z`.
pub const GRID_TO: i32 = 11;

/// The raw value of `0.2`, the radius of a small sphere and the height of
/// its centre.
pub const SMALL_RADIUS_RAW: i64 = 858993459;

/// The raw value of `0.9`: how far a small sphere may be moved from its grid
/// point, and how far its centre must stay from the point `(4, 0.2, 0)`.
pub const NINE_TENTHS_RAW: i64 = 3865470566;

/// The raw value of `0.8`: below it the material choice gives a diffuse
/// sphere.
pub const DIFFUSE_BELOW_RAW: i64 = 3435973837;

/// The raw value of `0.95`: below it, and from `0.8` on, the material choice
/// gives a metal sphere; from it on, a glass sphere.
pub const METAL_BELOW_RAW: i64 = 4080218931;

/// The raw value of `1.7`, the refraction index of the glass spheres.
pub const GLASS_INDEX_RAW: i64 = 7301444403;

/// The random numbers that place and paint one small sphere.
#[derive(Clone, Copy, PartialEq, Eq, Structural, Debug)]
pub struct SphereDraws {
    pub choose_mat: Scalar,
    pub jitter_x: Scalar,
    pub jitter_z: Scalar,
    pub c0: Scalar,
    pub c1: Scalar,
    pub c2: Scalar,
    pub c3: Scalar,
    pub c4: Scalar,
    pub c5: Scalar,
}

impl SphereDraws {
    /// Every number lies in `[0, 1)`.
    pub open spec fn valid(self) -> bool {
        &&& in_unit_interval(self.choose_mat)
        &&& in_unit_interval(self.jitter_x)
        &&& in_unit_interval(self.jitter_z)
        &&& in_unit_interval(self.c0)
        &&& in_unit_interval(self.c1)
        &&& in_unit_interval(self.c2)
        &&& in_unit_interval(self.c3)
        &&& in_unit_interval(self.c4)
        &&& in_unit_interval(self.c5)
    }
}

/// The vector with the given raw components.
pub open spec fn raw_vec(e0: int, e1: int, e2: int) -> Vec3 {
    Vec3 { e0: Scalar { raw: e0 as i64 }, e1: Scalar { raw: e1 as i64 }, e2: Scalar { raw: e2 as i64 } }
}

/// The ground: a grey diffuse sphere of radius 1000 that touches the origin
/// from below.
pub open spec fn ground() -> Sphere {
    Sphere {
        center: raw_vec(0, -1000 * SCALE, 0),
        radius: Scalar { raw: (1000 * SCALE) as i64 },
        material: Surface::Lambertian(Lambertian { albedo: raw_vec(HALF_RAW as int, HALF_RAW as int, HALF_RAW as int) }),
    }
}

/// The large diffuse sphere at `(-4, 1, 0)`, of colour `(0.4, 0.2, 0.1)`.
pub open spec fn large_diffuse() -> Sphere {
    Sphere {
        center: raw_vec(-4 * SCALE, SCALE as int, 0),
        radius: Scalar::one(),
        material: Surface::Lambertian(Lambertian { albedo: raw_vec(1717986918, 858993459, 429496730) }),
    }
}

/// The large mirror at `(4, 1, 0)`, of colour `(0.7, 0.6, 0.5)`.
pub open spec fn large_metal() -> Sphere {
    Sphere {
        center: raw_vec(4 * SCALE, SCALE as int, 0),
        radius: Scalar::one(),
        material: Surface::Metal(
            Metal { albedo: raw_vec(3006477107, 2576980378, HALF_RAW as int), fuzz: Scalar::zero() },
        ),
    }
}

/// The large glass sphere at `(0, 1, 0)`.
pub open spec fn large_glass() -> Sphere {
    Sphere {
        center: raw_vec(0, SCALE as int, 0),
        radius: Scalar::one(),
        material: Surface::Dielectric(Dielectric { refraction_index: Scalar { raw: GLASS_INDEX_RAW } }),
    }
}

/// The centre of the small sphere of the grid point `(a, b)`: the grid point
/// moved by `0.9` times the jitter along `x` and `z`, at the height `0.2`.
pub open spec fn small_center(a: i32, b: i32, jitter_x: Scalar, jitter_z: Scalar) -> Vec3 {
    Vec3 {
        e0: (Scalar { raw: (a * SCALE) as i64 }).plus((Scalar { raw: NINE_TENTHS_RAW }).times(jitter_x)),
        e1: Scalar { raw: SMALL_RADIUS_RAW },
        e2: (Scalar { raw: (b * SCALE) as i64 }).plus((Scalar { raw: NINE_TENTHS_RAW }).times(jitter_z)),
    }
}

/// Whether a small sphere centred at `center` keeps clear of the large
/// mirror: its centre is farther than `0.9` from the point `(4, 0.2, 0)`.
pub open spec fn keeps_clear(center: Vec3) -> bool {
    center.minus(raw_vec(4 * SCALE, SMALL_RADIUS_RAW as int, 0)).norm().raw > NINE_TENTHS_RAW
}

/// The material that the draws choose: diffuse with a colour of three
/// products, for a choice below `0.8`; metal with the colour
/// `(1 + c0, 0.5 (1 + c1), 0.5 c2)` and the fuzz `0.5 c3`, for a choice below
/// `0.95`; glass otherwise.
pub open spec fn material_for(d: SphereDraws) -> Surface {
    let one = Scalar::one();
    let half = Scalar { raw: HALF_RAW };
    if d.choose_mat.raw < DIFFUSE_BELOW_RAW {
        Surface::Lambertian(
            Lambertian {
                albedo: Vec3 { e0: d.c0.times(d.c1), e1: d.c2.times(d.c3), e2: d.c4.times(d.c5) },
            },
        )
    } else if d.choose_mat.raw < METAL_BELOW_RAW {
        Surface::Metal(
            Metal {
                albedo: Vec3 {
                    e0: one.plus(d.c0),
                    e1: half.times(one.plus(d.c1)),
                    e2: half.times(d.c2),
                },
                fuzz: half.times(d.c3),
            },
        )
    } else {
        Surface::Dielectric(Dielectric { refraction_index: Scalar { raw: GLASS_INDEX_RAW } })
    }
}

/// How many of the numbers `c0` to `c5` the small sphere of the grid point
/// `(a, b)` needs: none where the sphere is left out or made of glass, four
/// for metal, six for a diffuse sphere.
pub open spec fn needs_colours(a: i32, b: i32, d: SphereDraws) -> int {
    if !keeps_clear(small_center(a, b, d.jitter_x, d.jitter_z)) {
        0
    } else if d.choose_mat.raw < DIFFUSE_BELOW_RAW {
        6
    } else if d.choose_mat.raw < METAL_BELOW_RAW {
        4
    } else {
        0
    }
}

/// The small sphere of the grid point `(a, b)` for the given draws; none
/// where it would come too close to the large mirror.
pub open spec fn small_sphere(a: i32, b: i32, d: SphereDraws) -> Option<Sphere> {
    let center = small_center(a, b, d.jitter_x, d.jitter_z);
    if keeps_clear(center) {
        Some(Sphere { center, radius: Scalar { raw: SMALL_RADIUS_RAW }, material: material_for(d) })
    } else {
        None
    }
}

/// The sphere is the small sphere of some grid point for some draws.
pub open spec fn is_small_sphere(s: Sphere) -> bool {
    exists|a: i32, b: i32, d: SphereDraws|
        GRID_FROM <= a < GRID_TO && GRID_FROM <= b < GRID_TO && d.valid() && #[trigger] small_sphere(
            a,
            b,
            d,
        ) == Some(s)
}

/// The number of grid points: 22 along `x` times 22 along `z`.
pub const GRID_POINTS: usize = 484;

/// The `x` coordinate of the `k`-th grid point, in the order in which the
/// grid is walked: `z` runs fastest.
pub open spec fn grid_a(k: int) -> i32 {
    (k / 22 - 11) as i32
}

/// The `z` coordinate of the `k`-th grid point.
pub open spec fn grid_b(k: int) -> i32 {
    (k % 22 - 11) as i32
}

/// The small sphere of the `k`-th grid point as a list: empty where the
/// sphere would come too close to the large mirror.
pub open spec fn placed(k: int, d: SphereDraws) -> Seq<Sphere> {
    match small_sphere(grid_a(k), grid_b(k), d) {
        Some(s) => seq![s],
        None => Seq::empty(),
    }
}

/// The small spheres of the first grid points, one grid point for each of
/// the draws, in the order of the grid.
pub open spec fn scattered(draws: Seq<SphereDraws>) -> Seq<Sphere>
    decreases draws.len(),
{
    if draws.len() == 0 {
        Seq::empty()
    } else {
        scattered(draws.drop_last()) + placed(draws.len() - 1, draws.last())
    }
}

/// The scene for the given draws: the ground, the small spheres, and the
/// three large spheres.
pub open spec fn world_of(draws: Seq<SphereDraws>) -> Seq<Sphere> {
    seq![ground()] + scattered(draws) + seq![large_diffuse(), large_metal(), large_glass()]
}

/// The draws are enough for the whole grid, and each is valid.
pub open spec fn are_grid_draws(draws: Seq<SphereDraws>) -> bool {
    &&& draws.len() == GRID_POINTS
    &&& forall|k: int| 0 <= k < draws.len() ==> (#[trigger] draws[k]).valid()
}

/// The list is a scene as `generate_world` builds it: the ground first, the
/// three large spheres last, and between them at most one small sphere for
/// each of the 22 times 22 grid points.
pub open spec fn is_world(list: Seq<Sphere>) -> bool {
    &&& 4 <= list.len() <= 488
    &&& list[0] == ground()
    &&& list[list.len() - 3] == large_diffuse()
    &&& list[list.len() - 2] == large_metal()
    &&& list[list.len() - 1] == large_glass()
    &&& forall|k: int| 1 <= k < list.len() - 3 ==> is_small_sphere(#[trigger] list[k])
}

/// The small spheres of valid draws for at most the whole grid are at most
/// as many as the draws, and each is the small sphere of a grid point.
pub proof fn lemma_scattered_shape(draws: Seq<SphereDraws>)
    requires
        draws.len() <= GRID_POINTS,
        forall|k: int| 0 <= k < draws.len() ==> (#[trigger] draws[k]).valid(),
    ensures
        scattered(draws).len() <= draws.len(),
        forall|k: int| 0 <= k < scattered(draws).len() ==> is_small_sphere(#[trigger] scattered(draws)[k]),
    decreases draws.len(),
{
    if draws.len() > 0 {
        let init = draws.drop_last();
        lemma_scattered_shape(init);
        let k = draws.len() - 1;
        let d = draws.last();
        assert(d.valid());
        assert(GRID_FROM <= grid_a(k) < GRID_TO && GRID_FROM <= grid_b(k) < GRID_TO);
        if let Some(s) = small_sphere(grid_a(k), grid_b(k), d) {
            assert(is_small_sphere(s));
        }
    }
}

/// A scene that is built from valid draws for the whole grid has the
/// documented shape.
pub proof fn lemma_world_shape(draws: Seq<SphereDraws>)
    requires
        are_grid_draws(draws),
    ensures
        is_world(world_of(draws)),
{
    lemma_scattered_shape(draws);
    let list = world_of(draws);
    let n = scattered(draws).len();
    assert(list.len() == n + 4);
    assert forall|k: int| 1 <= k < list.len() - 3 implies is_small_sphere(#[trigger] list[k]) by {
        assert(list[k] == scattered(draws)[k - 1]);
    }
}

/// The centre of the small sphere of the grid point `(a, b)`.
fn center_of(a: i32, b: i32, jitter_x: Scalar, jitter_z: Scalar) -> (c: Vec3)
    ensures
        c == small_center(a, b, jitter_x, jitter_z),
{
    let reach = Scalar { raw: NINE_TENTHS_RAW };
    Vec3::new(
        Scalar::from_int(a) + reach * jitter_x,
        Scalar { raw: SMALL_RADIUS_RAW },
        Scalar::from_int(b) + reach * jitter_z,
    )
}

/// Whether a small sphere centred at `center` keeps clear of the large
/// mirror.
fn is_clear(center: Vec3) -> (r: bool)
    ensures
        r == keeps_clear(center),
{
    let base = Vec3::new(Scalar::from_int(4), Scalar { raw: SMALL_RADIUS_RAW }, Scalar { raw: 0 });
    (center - base).length() > (Scalar { raw: NINE_TENTHS_RAW })
}

/// The material that the draws choose.
pub fn choose_material(d: SphereDraws) -> (m: Surface)
    ensures
        m == material_for(d),
{
    let one = Scalar { raw: SCALE };
    let half = Scalar { raw: HALF_RAW };
    if d.choose_mat < (Scalar { raw: DIFFUSE_BELOW_RAW }) {
        Surface::Lambertian(Lambertian { albedo: Vec3::new(d.c0 * d.c1, d.c2 * d.c3, d.c4 * d.c5) })
    } else if d.choose_mat < (Scalar { raw: METAL_BELOW_RAW }) {
        Surface::Metal(
            Metal {
                albedo: Vec3::new(one + d.c0, half * (one + d.c1), half * d.c2),
                fuzz: half * d.c3,
            },
        )
    } else {
        Surface::Dielectric(Dielectric { refraction_index: Scalar { raw: GLASS_INDEX_RAW } })
    }
}

/// The small sphere of the grid point `(a, b)` for the given draws; none
/// where it would come too close to the large mirror.
pub fn place_small_sphere(a: i32, b: i32, d: SphereDraws) -> (s: Option<Sphere>)
    ensures
        s == small_sphere(a, b, d),
{
    let center = center_of(a, b, d.jitter_x, d.jitter_z);
    if is_clear(center) {
        Some(Sphere { center, radius: Scalar { raw: SMALL_RADIUS_RAW }, material: choose_material(d) })
    } else {
        None
    }
}

/// Draws the numbers for the small sphere of the grid point `(a, b)`: first
/// the material choice and the two jitters, then, if the sphere keeps clear
/// of the large mirror, the numbers that its material needs. The numbers
/// that are not needed are zero.
pub fn draw_for_small_sphere(a: i32, b: i32) -> (d: SphereDraws)
    ensures
        d.valid(),
        needs_colours(a, b, d) < 6 ==> d.c4.raw == 0 && d.c5.raw == 0,
        needs_colours(a, b, d) < 4 ==> d.c0.raw == 0 && d.c1.raw == 0 && d.c2.raw == 0 && d.c3.raw
            == 0,
{
    let zero = Scalar { raw: 0 };
    let choose_mat = random_unit();
    let jitter_x = random_unit();
    let jitter_z = random_unit();
    let mut d = SphereDraws {
        choose_mat,
        jitter_x,
        jitter_z,
        c0: zero,
        c1: zero,
        c2: zero,
        c3: zero,
        c4: zero,
        c5: zero,
    };
    if is_clear(center_of(a, b, jitter_x, jitter_z)) {
        if choose_mat < (Scalar { raw: DIFFUSE_BELOW_RAW }) {
            d.c0 = random_unit();
            d.c1 = random_unit();
            d.c2 = random_unit();
            d.c3 = random_unit();
            d.c4 = random_unit();
            d.c5 = random_unit();
        } else if choose_mat < (Scalar { raw: METAL_BELOW_RAW }) {
            d.c0 = random_unit();
            d.c1 = random_unit();
            d.c2 = random_unit();
            d.c3 = random_unit();
        }
    }
    d
}

/// The ground sphere.
pub fn ground_sphere() -> (s: Sphere)
    ensures
        s == ground(),
{
    let half = Scalar { raw: HALF_RAW };
    Sphere {
        center: Vec3::new(Scalar { raw: 0 }, Scalar::from_int(-1000), Scalar { raw: 0 }),
        radius: Scalar::from_int(1000),
        material: Surface::Lambertian(Lambertian { albedo: Vec3::new(half, half, half) }),
    }
}

/// The three large spheres: diffuse, metal and glass.
pub fn large_spheres() -> (s: (Sphere, Sphere, Sphere))
    ensures
        s.0 == large_diffuse(),
        s.1 == large_metal(),
        s.2 == large_glass(),
{
    let zero = Scalar { raw: 0 };
    let one = Scalar { raw: SCALE };
    (
        Sphere {
            center: Vec3::new(Scalar::from_int(-4), one, zero),
            radius: one,
            material: Surface::Lambertian(
                Lambertian {
                    albedo: Vec3::new(
                        Scalar { raw: 1717986918 },
                        Scalar { raw: 858993459 },
                        Scalar { raw: 429496730 },
                    ),
                },
            ),
        },
        Sphere {
            center: Vec3::new(Scalar::from_int(4), one, zero),
            radius: one,
            material: Surface::Metal(
                Metal {
                    albedo: Vec3::new(
                        Scalar { raw: 3006477107 },
                        Scalar { raw: 2576980378 },
                        Scalar { raw: HALF_RAW },
                    ),
                    fuzz: zero,
                },
            ),
        },
        Sphere {
            center: Vec3::new(zero, one, zero),
            radius: one,
            material: Surface::Dielectric(
                Dielectric { refraction_index: Scalar { raw: GLASS_INDEX_RAW } },
            ),
        },
    )
}

/// The draws that `build_world` uses: those for the grid points, without
/// any that follow them.
pub open spec fn used_draws(draws: Seq<SphereDraws>) -> Seq<SphereDraws> {
    if draws.len() <= GRID_POINTS {
        draws
    } else {
        draws.take(GRID_POINTS as int)
    }
}

/// Builds the scene for the given draws, one for each grid point in the
/// order of the grid. Grid points without a draw get no sphere.
pub fn build_world(draws: &Vec<SphereDraws>) -> (objs: Vec<Sphere>)
    ensures
        objs@ == world_of(used_draws(draws@)),
{
    let n: usize = if draws.len() < GRID_POINTS {
        draws.len()
    } else {
        GRID_POINTS
    };
    let mut objs: Vec<Sphere> = Vec::new();
    objs.push(ground_sphere());
    let mut k: usize = 0;
    while k < n
        invariant
            k <= n <= GRID_POINTS,
            n <= draws@.len(),
            objs@ == seq![ground()] + scattered(draws@.take(k as int)),
        decreases n - k,
    {
        let a: i32 = (k / 22) as i32 - 11;
        let b: i32 = (k % 22) as i32 - 11;
        proof {
            assert(draws@.take(k + 1).drop_last() =~= draws@.take(k as int));
            assert(draws@.take(k + 1).last() == draws@[k as int]);
            assert(grid_a(k as int) == a && grid_b(k as int) == b);
        }
        let ghost before = objs@;
        if let Some(s) = place_small_sphere(a, b, draws[k]) {
            objs.push(s);
            assert(objs@ =~= before + seq![s]);
        }
        assert(objs@ =~= seq![ground()] + scattered(draws@.take(k + 1)));
        k = k + 1;
    }
    assert(draws@.take(n as int) =~= used_draws(draws@));
    let (diffuse, metal, glass) = large_spheres();
    let ghost before = objs@;
    objs.push(diffuse);
    objs.push(metal);
    objs.push(glass);
    assert(objs@ =~= before + seq![large_diffuse(), large_metal(), large_glass()]);
    objs
}

/// Builds the scene: the ground, then for each grid point a small sphere
/// placed and painted at random unless it would come too close to the large
/// mirror, then the three large spheres.
pub fn generate_world() -> (objs: Vec<Sphere>)
    ensures
        exists|draws: Seq<SphereDraws>| are_grid_draws(draws) && objs@ == #[trigger] world_of(draws),
        is_world(objs@),
{
    let mut draws: Vec<SphereDraws> = Vec::new();
    let mut a: i32 = GRID_FROM;
    while a < GRID_TO
        invariant
            GRID_FROM <= a <= GRID_TO,
            draws@.len() == 22 * (a + 11),
            forall|k: int| 0 <= k < draws@.len() ==> (#[trigger] draws@[k]).valid(),
        decreases GRID_TO - a,
    {
        let mut b: i32 = GRID_FROM;
        while b < GRID_TO
            invariant
                GRID_FROM <= a < GRID_TO,
                GRID_FROM <= b <= GRID_TO,
                draws@.len() == 22 * (a + 11) + (b + 11),
                forall|k: int| 0 <= k < draws@.len() ==> (#[trigger] draws@[k]).valid(),
            decreases GRID_TO - b,
        {
            draws.push(draw_for_small_sphere(a, b));
            b = b + 1;
        }
        a = a + 1;
    }
    let objs = build_world(&draws);
    proof {
        assert(are_grid_draws(draws@));
        lemma_world_shape(draws@);
    }
    objs
}

} // verus!

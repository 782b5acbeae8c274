use pathtracer::hitable::HitRecord;
use pathtracer::material::{
    reflect, refract, schlick, Dielectric, Lambertian, Material, Metal, ScatterSample, Surface,
};
use pathtracer::random::unit_from_word;
use pathtracer::ray::Ray;
use pathtracer::scalar::{Scalar, SCALE};
use pathtracer::vec3::{unit_vector, Vec3};

fn fx(x: f64) -> Scalar {
    Scalar { raw: (x * 4294967296.0).round() as i64 }
}

fn fl(s: Scalar) -> f64 {
    s.raw as f64 / 4294967296.0
}

fn v(x: f64, y: f64, z: f64) -> Vec3 {
    Vec3::new(fx(x), fx(y), fx(z))
}

fn near(a: Vec3, x: f64, y: f64, z: f64, eps: f64) -> bool {
    (fl(a.e0) - x).abs() < eps && (fl(a.e1) - y).abs() < eps && (fl(a.e2) - z).abs() < eps
}

fn sample(x: f64, y: f64, z: f64, coin: f64) -> ScatterSample {
    ScatterSample { offset: v(x, y, z), coin: fx(coin) }
}

fn floor_hit(material: Surface) -> HitRecord {
    HitRecord { t: fx(1.0), p: v(0.0, 0.0, 0.0), normal: v(0.0, 1.0, 0.0), material }
}

fn glass() -> Dielectric {
    Dielectric { refraction_index: fx(1.5) }
}

#[test]
fn reflect_mirrors_at_the_normal() {
    assert_eq!(reflect(v(1.0, -1.0, 0.0), v(0.0, 1.0, 0.0)), v(1.0, 1.0, 0.0));
    assert_eq!(reflect(v(0.0, -1.0, 0.0), v(0.0, 1.0, 0.0)), v(0.0, 1.0, 0.0));
    assert_eq!(reflect(v(1.0, 0.0, 0.0), v(0.0, 1.0, 0.0)), v(1.0, 0.0, 0.0));
    assert_eq!(reflect(v(0.5, -2.0, 3.0), v(0.0, 0.0, 1.0)), v(0.5, -2.0, -3.0));
}

#[test]
fn refract_passes_straight_through_head_on() {
    let out = refract(v(0.0, -1.0, 0.0), v(0.0, 1.0, 0.0), fx(1.0) / fx(1.5)).unwrap();
    assert!(near(out, 0.0, -1.0, 0.0, 1e-8));
    let same = refract(v(0.0, -3.0, 0.0), v(0.0, 1.0, 0.0), fx(1.0)).unwrap();
    assert_eq!(same, v(0.0, -1.0, 0.0));
}

#[test]
fn refract_bends_by_snells_law() {
    let s = 0.5f64.sqrt();
    let ratio = 1.0 / 1.5;
    let out = refract(v(1.0, -1.0, 0.0), v(0.0, 1.0, 0.0), fx(ratio)).unwrap();
    let sin_out = ratio * s;
    let cos_out = (1.0 - sin_out * sin_out).sqrt();
    assert!(near(out, sin_out, -cos_out, 0.0, 1e-7));
}

#[test]
fn refract_fails_on_total_internal_reflection() {
    assert!(refract(v(1.0, -0.1, 0.0), v(0.0, 1.0, 0.0), fx(1.5)).is_none());
    assert!(refract(v(1.0, -1.0, 0.0), v(0.0, 1.0, 0.0), fx(1.5)).is_none());
    assert!(refract(v(1.0, -1.0, 0.0), v(0.0, 1.0, 0.0), fx(1.4)).is_some());
}

#[test]
fn schlick_at_normal_incidence_is_r0() {
    let r = schlick(fx(1.5), fx(1.0));
    assert_eq!(r.raw, 171798691);
    assert!((fl(r) - 0.04).abs() < 1e-8);
}

#[test]
fn schlick_at_grazing_incidence_is_one() {
    let r = schlick(fx(1.5), fx(0.0));
    assert!((fl(r) - 1.0).abs() < 1e-8);
    let mid = schlick(fx(1.5), fx(0.5));
    let expected = 0.04 + 0.96 * 0.5f64.powi(5);
    assert!((fl(mid) - expected).abs() < 1e-8);
}

#[test]
fn lambertian_scatters_toward_the_offset_ball() {
    let m = Lambertian { albedo: v(0.8, 0.3, 0.1) };
    let rec = HitRecord {
        t: fx(2.0),
        p: v(1.0, 2.0, 3.0),
        normal: v(0.0, 1.0, 0.0),
        material: Surface::Lambertian(m),
    };
    let r_in = Ray { a: v(1.0, 4.0, 3.0), b: v(0.0, -1.0, 0.0) };
    let (attenuation, scattered, did) = m.scatter_with(r_in, rec, sample(0.25, -0.5, 0.125, 0.0));
    assert!(did);
    assert_eq!(attenuation, v(0.8, 0.3, 0.1));
    assert_eq!(scattered.a, v(1.0, 2.0, 3.0));
    assert_eq!(scattered.b, v(0.25, 0.5, 0.125));
}

#[test]
fn lambertian_always_scatters() {
    let m = Lambertian { albedo: v(0.5, 0.5, 0.5) };
    let rec = floor_hit(Surface::Lambertian(m));
    let r_in = Ray { a: v(0.0, 1.0, 0.0), b: v(0.3, -1.0, 0.2) };
    for _ in 0..500 {
        let (attenuation, scattered, did) = m.scatter(r_in, rec);
        assert!(did);
        assert_eq!(attenuation, m.albedo);
        assert_eq!(scattered.a, rec.p);
        let offset = scattered.b - rec.normal;
        assert!(fl(offset.squared_length()) < 1.0 + 1e-8);
    }
}

#[test]
fn metal_without_fuzz_is_a_mirror() {
    let m = Metal { albedo: v(0.7, 0.6, 0.5), fuzz: fx(0.0) };
    let rec = floor_hit(Surface::Metal(m));
    let r_in = Ray { a: v(-1.0, 1.0, 0.0), b: v(3.0, -3.0, 0.0) };
    let (attenuation, scattered, did) = m.scatter_with(r_in, rec, sample(0.3, 0.3, 0.3, 0.0));
    let s = 0.5f64.sqrt();
    assert!(did);
    assert_eq!(attenuation, v(0.7, 0.6, 0.5));
    assert_eq!(scattered.a, rec.p);
    assert!(near(scattered.b, s, s, 0.0, 1e-8));
    assert_eq!(scattered.b, reflect(unit_vector(r_in.b), rec.normal));
}

#[test]
fn metal_fuzz_adds_the_scaled_offset() {
    let m = Metal { albedo: v(1.0, 1.0, 1.0), fuzz: fx(0.5) };
    let rec = floor_hit(Surface::Metal(m));
    let r_in = Ray { a: v(0.0, 1.0, 0.0), b: v(0.0, -2.0, 0.0) };
    let (_, scattered, did) = m.scatter_with(r_in, rec, sample(0.5, -0.25, 0.75, 0.0));
    assert!(did);
    assert_eq!(scattered.b, v(0.25, 0.875, 0.375));
}

#[test]
fn metal_absorbs_what_reflects_into_the_surface() {
    let m = Metal { albedo: v(1.0, 1.0, 1.0), fuzz: fx(0.0) };
    let rec = floor_hit(Surface::Metal(m));
    let from_below = Ray { a: v(0.0, -1.0, 0.0), b: v(1.0, 1.0, 0.0) };
    let (_, scattered, did) = m.scatter_with(from_below, rec, sample(0.0, 0.0, 0.0, 0.0));
    assert!(!did);
    assert!(scattered.b.dot(rec.normal) <= fx(0.0));
    let grazing = Ray { a: v(-1.0, 0.0, 0.0), b: v(1.0, 0.0, 0.0) };
    let (_, along, did_graze) = m.scatter_with(grazing, rec, sample(0.0, 0.0, 0.0, 0.0));
    assert_eq!(along.b.dot(rec.normal), fx(0.0));
    assert!(!did_graze);
    let fuzzy = Metal { albedo: v(1.0, 1.0, 1.0), fuzz: fx(1.0) };
    let shallow = Ray { a: v(-1.0, 0.1, 0.0), b: v(1.0, -0.1, 0.0) };
    let (_, pushed, did_fuzzy) = fuzzy.scatter_with(shallow, rec, sample(0.0, -0.9, 0.0, 0.0));
    assert!(pushed.b.dot(rec.normal) < fx(0.0));
    assert!(!did_fuzzy);
}

#[test]
fn metal_reports_scattering_by_the_sign_of_the_dot_product() {
    let m = Metal { albedo: v(0.9, 0.9, 0.9), fuzz: fx(0.8) };
    let rec = floor_hit(Surface::Metal(m));
    let r_in = Ray { a: v(-1.0, 0.2, 0.0), b: v(1.0, -0.2, 0.1) };
    let mut scattered_some = false;
    let mut absorbed_some = false;
    for _ in 0..2000 {
        let (attenuation, scattered, did) = m.scatter(r_in, rec);
        assert_eq!(attenuation, m.albedo);
        assert_eq!(did, scattered.b.dot(rec.normal) > fx(0.0));
        if did {
            scattered_some = true;
        } else {
            absorbed_some = true;
        }
    }
    assert!(scattered_some);
    assert!(absorbed_some);
}

#[test]
fn dielectric_head_on_refracts_or_reflects_by_the_coin() {
    let m = glass();
    let rec = floor_hit(Surface::Dielectric(m));
    let r_in = Ray { a: v(0.0, 1.0, 0.0), b: v(0.0, -1.0, 0.0) };
    let (attenuation, through, did) = m.scatter_with(r_in, rec, sample(0.0, 0.0, 0.0, 0.5));
    assert!(did);
    assert_eq!(attenuation, v(1.0, 1.0, 1.0));
    assert_eq!(through.a, rec.p);
    assert!(near(through.b, 0.0, -1.0, 0.0, 1e-8));
    let (white, back, did_back) = m.scatter_with(r_in, rec, sample(0.0, 0.0, 0.0, 0.01));
    assert!(did_back);
    assert_eq!(white, v(1.0, 1.0, 1.0));
    assert_eq!(back.b, v(0.0, 1.0, 0.0));
}

#[test]
fn dielectric_refracts_exactly_when_the_coin_reaches_the_reflectance() {
    let m = glass();
    let rec = floor_hit(Surface::Dielectric(m));
    let r_in = Ray { a: v(0.0, 1.0, 0.0), b: v(0.0, -1.0, 0.0) };
    let threshold = schlick(fx(1.5), fx(1.0));
    let at = ScatterSample { offset: v(0.0, 0.0, 0.0), coin: threshold };
    let below = ScatterSample { offset: v(0.0, 0.0, 0.0), coin: Scalar { raw: threshold.raw - 1 } };
    let (_, refracted, _) = m.scatter_with(r_in, rec, at);
    let (_, reflected, _) = m.scatter_with(r_in, rec, below);
    assert!(fl(refracted.b.e1) < 0.0);
    assert!(fl(reflected.b.e1) > 0.0);
}

#[test]
fn dielectric_split_follows_schlick_head_on() {
    let m = glass();
    let rec = floor_hit(Surface::Dielectric(m));
    let r_in = Ray { a: v(0.0, 1.0, 0.0), b: v(0.0, -1.0, 0.0) };
    let mut state: u32 = 12345;
    let trials = 20000;
    let mut reflected = 0;
    for _ in 0..trials {
        state = state.wrapping_mul(1664525).wrapping_add(1013904223);
        let coin = unit_from_word(state);
        let s = ScatterSample { offset: v(0.0, 0.0, 0.0), coin };
        let (attenuation, out, did) = m.scatter_with(r_in, rec, s);
        assert!(did);
        assert_eq!(attenuation, v(1.0, 1.0, 1.0));
        if fl(out.b.e1) > 0.0 {
            reflected += 1;
        }
    }
    let share = reflected as f64 / trials as f64;
    assert!((share - 0.04).abs() < 0.01);
}

#[test]
fn dielectric_split_with_drawn_coins_favours_refraction() {
    let m = glass();
    let rec = floor_hit(Surface::Dielectric(m));
    let r_in = Ray { a: v(0.0, 1.0, 0.0), b: v(0.0, -1.0, 0.0) };
    let trials = 5000;
    let mut reflected = 0;
    for _ in 0..trials {
        let (attenuation, out, did) = m.scatter(r_in, rec);
        assert!(did);
        assert_eq!(attenuation, v(1.0, 1.0, 1.0));
        assert_eq!(out.a, rec.p);
        if fl(out.b.e1) > 0.0 {
            reflected += 1;
        }
    }
    let share = reflected as f64 / trials as f64;
    assert!(share < 0.08);
    assert!(share > 0.01);
}

#[test]
fn dielectric_reflects_on_total_internal_reflection() {
    let m = glass();
    let rec = floor_hit(Surface::Dielectric(m));
    let from_inside = Ray { a: v(-1.0, -0.2, 0.0), b: v(1.0, 0.2, 0.0) };
    for coin in [0.0, 0.3, 0.999].iter() {
        let (attenuation, out, did) =
            m.scatter_with(from_inside, rec, sample(0.0, 0.0, 0.0, *coin));
        assert!(did);
        assert_eq!(attenuation, v(1.0, 1.0, 1.0));
        assert_eq!(out.b, reflect(from_inside.b, rec.normal));
        assert_eq!(out.b, v(1.0, -0.2, 0.0));
    }
    for _ in 0..50 {
        let (_, out, did) = m.scatter(from_inside, rec);
        assert!(did);
        assert_eq!(out.b, v(1.0, -0.2, 0.0));
    }
}

#[test]
fn dielectric_leaving_the_glass_bends_away_from_the_normal() {
    let m = glass();
    let rec = floor_hit(Surface::Dielectric(m));
    let from_inside = Ray { a: v(-0.1, -1.0, 0.0), b: v(0.1, 1.0, 0.0) };
    let (_, out, did) = m.scatter_with(from_inside, rec, sample(0.0, 0.0, 0.0, 0.999));
    assert!(did);
    let len = (0.01f64 + 1.0).sqrt();
    let sin_in = 0.1 / len;
    let sin_out = 1.5 * sin_in;
    let cos_out = (1.0 - sin_out * sin_out).sqrt();
    assert!(near(out.b, sin_out, cos_out, 0.0, 1e-7));
}

#[test]
fn surface_scatters_as_its_material_does() {
    let r_in = Ray { a: v(-1.0, 1.0, 0.0), b: v(1.0, -1.0, 0.0) };
    let s = sample(0.1, 0.2, -0.3, 0.5);
    let diffuse = Lambertian { albedo: v(0.1, 0.2, 0.3) };
    let mirror = Metal { albedo: v(0.4, 0.5, 0.6), fuzz: fx(0.25) };
    let clear = glass();
    let rec = floor_hit(Surface::Lambertian(diffuse));
    assert_eq!(
        Surface::Lambertian(diffuse).scatter_with(r_in, rec, s),
        diffuse.scatter_with(r_in, rec, s)
    );
    assert_eq!(Surface::Metal(mirror).scatter_with(r_in, rec, s), mirror.scatter_with(r_in, rec, s));
    assert_eq!(
        Surface::Dielectric(clear).scatter_with(r_in, rec, s),
        clear.scatter_with(r_in, rec, s)
    );
    let (a1, _, d1) = Surface::Lambertian(diffuse).scatter(r_in, rec);
    assert!(d1);
    assert_eq!(a1, diffuse.albedo);
    let (a2, r2, d2) = Surface::Metal(mirror).scatter(r_in, rec);
    assert_eq!(a2, mirror.albedo);
    assert_eq!(d2, r2.b.dot(rec.normal) > fx(0.0));
    let (a3, _, d3) = Surface::Dielectric(clear).scatter(r_in, rec);
    assert!(d3);
    assert_eq!(a3, v(1.0, 1.0, 1.0));
}

#[test]
fn scatter_sample_bounds() {
    let s = sample(0.5, 0.5, 0.5, 0.25);
    assert!(s.offset.squared_length().raw < SCALE);
    assert!(s.coin.raw >= 0 && s.coin.raw < SCALE);
}

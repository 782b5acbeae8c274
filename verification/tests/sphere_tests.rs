use pathtracer::hitable::{Hitable, HitableList};
use pathtracer::material::{Lambertian, Metal, Surface};
use pathtracer::ray::Ray;
use pathtracer::scalar::{Scalar, SCALE};
use pathtracer::sphere::{point_in_cube, random_in_unit_sphere, Sphere, MAX_DRAWS};
use pathtracer::vec3::{unit_vector, Vec3};

fn fx(x: f64) -> Scalar {
    Scalar { raw: (x * 4294967296.0).round() as i64 }
}

fn fl(s: Scalar) -> f64 {
    s.raw as f64 / 4294967296.0
}

fn v(x: f64, y: f64, z: f64) -> Vec3 {
    Vec3::new(fx(x), fx(y), fx(z))
}

fn grey() -> Surface {
    Surface::Lambertian(Lambertian { albedo: v(0.5, 0.5, 0.5) })
}

fn ball(x: f64, y: f64, z: f64, radius: f64) -> Sphere {
    Sphere { center: v(x, y, z), radius: fx(radius), material: grey() }
}

fn far() -> Scalar {
    Scalar { raw: i64::MAX }
}

#[test]
fn sphere_hit_head_on_takes_the_near_root() {
    let s = ball(0.0, 0.0, -1.0, 0.5);
    let r = Ray { a: v(0.0, 0.0, 0.0), b: v(0.0, 0.0, -1.0) };
    let rec = s.hit(r, fx(0.001), far()).unwrap();
    assert_eq!(rec.t, fx(0.5));
    assert_eq!(rec.p, v(0.0, 0.0, -0.5));
    assert_eq!(rec.normal, v(0.0, 0.0, 1.0));
    assert_eq!(rec.material, grey());
}

#[test]
fn sphere_hit_does_not_assume_a_unit_direction() {
    let s = ball(0.0, 0.0, -1.0, 0.5);
    let r = Ray { a: v(0.0, 0.0, 0.0), b: v(0.0, 0.0, -2.0) };
    let rec = s.hit(r, fx(0.001), far()).unwrap();
    assert_eq!(rec.t, fx(0.25));
    assert_eq!(rec.p, v(0.0, 0.0, -0.5));
}

#[test]
fn sphere_miss_is_none() {
    let s = ball(0.0, 0.0, -1.0, 0.5);
    let up = Ray { a: v(0.0, 0.0, 0.0), b: v(0.0, 1.0, 0.0) };
    assert!(s.hit(up, fx(0.001), far()).is_none());
    let away = Ray { a: v(0.0, 0.0, 0.0), b: v(0.0, 0.0, 1.0) };
    assert!(s.hit(away, fx(0.001), far()).is_none());
}

#[test]
fn sphere_tangent_ray_is_a_miss() {
    let s = ball(0.0, 0.0, -1.0, 0.5);
    let r = Ray { a: v(0.5, 0.0, 0.0), b: v(0.0, 0.0, -1.0) };
    assert!(s.hit(r, fx(0.001), far()).is_none());
}

#[test]
fn sphere_hit_respects_the_open_interval() {
    let s = ball(0.0, 0.0, -1.0, 0.5);
    let r = Ray { a: v(0.0, 0.0, 0.0), b: v(0.0, 0.0, -1.0) };
    assert_eq!(s.hit(r, fx(0.001), fx(0.6)).unwrap().t, fx(0.5));
    assert!(s.hit(r, fx(0.001), fx(0.5)).is_none());
    assert!(s.hit(r, fx(0.001), fx(0.4)).is_none());
    assert_eq!(s.hit(r, fx(0.5), far()).unwrap().t, fx(1.5));
    assert_eq!(s.hit(r, fx(0.6), far()).unwrap().t, fx(1.5));
    assert!(s.hit(r, fx(0.5), fx(1.5)).is_none());
    assert!(s.hit(r, fx(1.5), far()).is_none());
    assert!(s.hit(r, fx(0.6), fx(1.4)).is_none());
}

#[test]
fn sphere_hit_from_inside_takes_the_far_root() {
    let s = ball(0.0, 0.0, 0.0, 2.0);
    let r = Ray { a: v(0.0, 0.0, 0.0), b: v(1.0, 0.0, 0.0) };
    let rec = s.hit(r, fx(0.001), far()).unwrap();
    assert_eq!(rec.t, fx(2.0));
    assert_eq!(rec.p, v(2.0, 0.0, 0.0));
    assert_eq!(rec.normal, v(1.0, 0.0, 0.0));
}

#[test]
fn sphere_negative_parameters_are_found_when_asked_for() {
    let s = ball(0.0, 0.0, 1.0, 0.5);
    let r = Ray { a: v(0.0, 0.0, 0.0), b: v(0.0, 0.0, -1.0) };
    assert!(s.hit(r, fx(0.001), far()).is_none());
    let rec = s.hit(r, fx(-10.0), far()).unwrap();
    assert_eq!(rec.t, fx(-1.5));
    assert_eq!(rec.p, v(0.0, 0.0, 1.5));
}

#[test]
fn sphere_negative_radius_flips_the_normal() {
    let s = ball(0.0, 0.0, -1.0, -0.5);
    let r = Ray { a: v(0.0, 0.0, 0.0), b: v(0.0, 0.0, -1.0) };
    let rec = s.hit(r, fx(0.001), far()).unwrap();
    assert_eq!(rec.t, fx(0.5));
    assert_eq!(rec.p, v(0.0, 0.0, -0.5));
    assert_eq!(rec.normal, v(0.0, 0.0, -1.0));
}

#[test]
fn sphere_zero_direction_is_a_miss() {
    let s = ball(0.0, 0.0, -1.0, 0.5);
    let r = Ray { a: v(0.0, 0.0, 0.0), b: v(0.0, 0.0, 0.0) };
    assert!(s.hit(r, fx(0.001), far()).is_none());
}

#[test]
fn sphere_hit_point_lies_on_the_ray_and_the_normal_is_radial() {
    let spheres = [
        ball(0.0, 0.0, -1.0, 0.5),
        ball(1.0, 2.0, -3.0, 1.5),
        ball(0.0, -1000.0, 0.0, 1000.0),
        ball(-4.0, 1.0, 0.0, 1.0),
        ball(0.3, 0.1, -2.0, -0.45),
    ];
    let origins = [v(0.0, 0.0, 0.0), v(5.0, 2.0, 4.0), v(-1.0, 3.0, 2.0)];
    let mut hits = 0;
    for s in spheres.iter() {
        for o in origins.iter() {
            for k in 0..25 {
                let dx = (k % 5) as f64 * 0.1 - 0.2;
                let dy = (k / 5) as f64 * 0.1 - 0.2;
                let target = s.center + v(dx * fl(s.radius), dy * fl(s.radius), 0.0);
                let stretch = fx(0.5 + (k % 3) as f64 * 1.25);
                let r = Ray { a: *o, b: unit_vector(target - *o) * stretch };
                if let Some(rec) = s.hit(r, fx(0.001), far()) {
                    hits += 1;
                    assert!(rec.t > fx(0.001));
                    assert!(rec.t < far());
                    assert_eq!(rec.p, r.point_at_parameter(rec.t));
                    assert_eq!(rec.normal, (rec.p - s.center) / s.radius);
                    let radial = fl((rec.p - s.center).dot(rec.normal));
                    let expected = fl(s.radius) * fl(rec.normal.length());
                    assert!(
                        (radial - expected).abs() < 1e-4 * fl(s.radius).abs().max(1.0),
                        "sphere {:?} ray {:?} rec {:?}",
                        s,
                        r,
                        rec
                    );
                    assert!((fl(rec.normal.length()) - 1.0).abs() < 1e-4);
                    assert!((fl((rec.p - s.center).length()) - fl(s.radius).abs()).abs() < 1e-3);
                }
            }
        }
    }
    assert!(hits > 200);
}

#[test]
fn point_in_cube_maps_the_unit_cube() {
    assert_eq!(point_in_cube(fx(0.0), fx(0.0), fx(0.0)), v(-1.0, -1.0, -1.0));
    assert_eq!(point_in_cube(fx(0.5), fx(0.5), fx(0.5)), v(0.0, 0.0, 0.0));
    assert_eq!(point_in_cube(fx(0.75), fx(0.25), fx(1.0)), v(0.5, -0.5, 1.0));
}

#[test]
fn random_in_unit_sphere_stays_inside_the_ball() {
    assert_eq!(MAX_DRAWS, 64);
    let mut distinct = false;
    let first = random_in_unit_sphere();
    for _ in 0..2000 {
        let p = random_in_unit_sphere();
        assert!(p.squared_length().raw < SCALE);
        assert!(p.squared_length().raw >= 0);
        if p != first {
            distinct = true;
        }
    }
    assert!(distinct);
}

#[test]
fn list_returns_the_nearest_hit() {
    let near = ball(0.0, 0.0, -1.0, 0.5);
    let middle = ball(0.0, 0.0, -3.0, 0.5);
    let distant = ball(0.0, 0.0, -6.0, 1.0);
    let aside = ball(10.0, 0.0, -1.0, 0.5);
    let r = Ray { a: v(0.0, 0.0, 0.0), b: v(0.0, 0.0, -1.0) };
    let orders: [[Sphere; 4]; 4] = [
        [near, middle, distant, aside],
        [aside, distant, middle, near],
        [middle, near, aside, distant],
        [distant, aside, near, middle],
    ];
    for order in orders.iter() {
        let world = HitableList { list: order.to_vec() };
        let rec = world.hit(r, fx(0.001), far()).unwrap();
        assert_eq!(rec.t, fx(0.5));
        assert_eq!(Some(rec), near.hit(r, fx(0.001), far()));
    }
}

#[test]
fn list_equals_the_minimum_over_independent_queries() {
    let mut spheres: Vec<Sphere> = Vec::new();
    let mut state: u64 = 88172645463325252;
    let mut next = move || {
        state ^= state << 13;
        state ^= state >> 7;
        state ^= state << 17;
        (state % 2000) as f64 / 1000.0 - 1.0
    };
    for _ in 0..40 {
        spheres.push(ball(3.0 * next(), 3.0 * next(), -4.0 + 2.0 * next(), 0.3 + 0.2 * next().abs()));
    }
    let mut reversed = spheres.clone();
    reversed.reverse();
    let world = HitableList { list: spheres.clone() };
    let backward = HitableList { list: reversed };
    let mut hits = 0;
    for i in 0..400 {
        let r = Ray {
            a: v(0.0, 0.0, 0.0),
            b: v((i % 20) as f64 * 0.1 - 1.0, (i / 20) as f64 * 0.1 - 1.0, -1.0),
        };
        let t_min = fx(0.001);
        let t_max = fx(5.0);
        let mut best: Option<pathtracer::hitable::HitRecord> = None;
        for s in spheres.iter() {
            if let Some(h) = s.hit(r, t_min, t_max) {
                assert!(h.t > t_min && h.t < t_max);
                match best {
                    Some(b) if b.t <= h.t => {}
                    _ => best = Some(h),
                }
            }
        }
        let got = world.hit(r, t_min, t_max);
        assert_eq!(got, best);
        let other = backward.hit(r, t_min, t_max);
        assert_eq!(other.is_some(), got.is_some());
        if let (Some(a), Some(b)) = (got, other) {
            assert_eq!(a.t, b.t);
            hits += 1;
        }
    }
    assert!(hits > 20);
}

#[test]
fn list_keeps_the_first_of_equally_near_hits() {
    let red = Sphere {
        center: v(0.0, 0.0, -1.0),
        radius: fx(0.5),
        material: Surface::Lambertian(Lambertian { albedo: v(1.0, 0.0, 0.0) }),
    };
    let mirror = Sphere {
        center: v(0.0, 0.0, -1.0),
        radius: fx(0.5),
        material: Surface::Metal(Metal { albedo: v(1.0, 1.0, 1.0), fuzz: fx(0.0) }),
    };
    let r = Ray { a: v(0.0, 0.0, 0.0), b: v(0.0, 0.0, -1.0) };
    let world = HitableList { list: vec![red, mirror] };
    assert_eq!(world.hit(r, fx(0.001), far()).unwrap().material, red.material);
    let swapped = HitableList { list: vec![mirror, red] };
    assert_eq!(swapped.hit(r, fx(0.001), far()).unwrap().material, mirror.material);
}

#[test]
fn empty_list_is_never_hit() {
    let world: HitableList<Sphere> = HitableList { list: Vec::new() };
    let r = Ray { a: v(0.0, 0.0, 0.0), b: v(0.0, 0.0, -1.0) };
    assert!(world.hit(r, fx(0.001), far()).is_none());
    assert!(world.hit(r, fx(-100.0), fx(100.0)).is_none());
}

#[test]
fn list_respects_the_interval() {
    let world = HitableList { list: vec![ball(0.0, 0.0, -1.0, 0.5), ball(0.0, 0.0, -3.0, 0.5)] };
    let r = Ray { a: v(0.0, 0.0, 0.0), b: v(0.0, 0.0, -1.0) };
    assert_eq!(world.hit(r, fx(0.001), fx(0.5)), None);
    assert_eq!(world.hit(r, fx(1.6), far()).unwrap().t, fx(2.5));
    assert_eq!(world.hit(r, fx(1.6), fx(2.5)), None);
    assert_eq!(world.hit(r, fx(0.7), fx(2.0)).unwrap().t, fx(1.5));
}

#[test]
fn lists_of_lists_are_hitable() {
    let front = HitableList { list: vec![ball(0.0, 0.0, -1.0, 0.5)] };
    let back = HitableList { list: vec![ball(0.0, 0.0, -3.0, 0.5), ball(0.0, 0.0, -5.0, 0.5)] };
    let world = HitableList { list: vec![back, front] };
    let r = Ray { a: v(0.0, 0.0, 0.0), b: v(0.0, 0.0, -1.0) };
    assert_eq!(world.hit(r, fx(0.001), far()).unwrap().t, fx(0.5));
    assert_eq!(world.hit(r, fx(1.6), far()).unwrap().t, fx(2.5));
}

use pathtracer::camera::{
    point_in_square, random_in_unit_disk, Camera, DefocusBlurCamera, NoBlurCamera,
};
use pathtracer::hitable::{Hitable, HitableList};
use pathtracer::material::{Lambertian, Surface};
use pathtracer::scalar::{Scalar, SCALE};
use pathtracer::sphere::Sphere;
use pathtracer::vec3::Vec3;

fn fx(x: f64) -> Scalar {
    Scalar { raw: (x * 4294967296.0).round() as i64 }
}

fn fl(s: Scalar) -> f64 {
    s.raw as f64 / 4294967296.0
}

fn v(x: f64, y: f64, z: f64) -> Vec3 {
    Vec3::new(fx(x), fx(y), fx(z))
}

fn near(a: Vec3, x: f64, y: f64, z: f64, eps: f64) -> bool {
    (fl(a.e0) - x).abs() < eps && (fl(a.e1) - y).abs() < eps && (fl(a.e2) - z).abs() < eps
}

fn half_height_of(vfov_degrees: f64) -> Scalar {
    fx((vfov_degrees * std::f64::consts::PI / 180.0 / 2.0).tan())
}

fn front_camera() -> NoBlurCamera {
    NoBlurCamera::new(
        v(0.0, 0.0, 0.0),
        v(0.0, 0.0, -1.0),
        v(0.0, 1.0, 0.0),
        fx(1.0),
        fx(2.0),
    )
}

#[test]
fn pinhole_camera_frames_the_image_plane() {
    let cam = front_camera();
    assert_eq!(cam.origin, v(0.0, 0.0, 0.0));
    assert_eq!(cam.lower_left_corner, v(-2.0, -1.0, -1.0));
    assert_eq!(cam.horizontal, v(4.0, 0.0, 0.0));
    assert_eq!(cam.vertical, v(0.0, 2.0, 0.0));
}

#[test]
fn pinhole_camera_rays_pass_through_the_plane() {
    let cam = front_camera();
    let centre = cam.get_ray(fx(0.5), fx(0.5));
    assert_eq!(centre.a, v(0.0, 0.0, 0.0));
    assert_eq!(centre.b, v(0.0, 0.0, -1.0));
    assert_eq!(cam.get_ray(fx(0.0), fx(0.0)).b, v(-2.0, -1.0, -1.0));
    assert_eq!(cam.get_ray(fx(1.0), fx(1.0)).b, v(2.0, 1.0, -1.0));
    assert_eq!(cam.get_ray(fx(0.25), fx(0.75)).b, v(-1.0, 0.5, -1.0));
    assert_eq!(
        cam.get_ray_through(fx(0.25), fx(0.75), v(0.5, 0.5, 0.0)),
        cam.get_ray(fx(0.25), fx(0.75))
    );
}

#[test]
fn pinhole_camera_follows_the_framing_parameters() {
    let cam = NoBlurCamera::new(
        v(5.0, 2.0, 4.0),
        v(0.0, 0.0, -1.0),
        v(0.0, 1.0, 0.0),
        half_height_of(50.0),
        fx(2.0),
    );
    assert_eq!(cam.origin, v(5.0, 2.0, 4.0));
    let centre = cam.get_ray(fx(0.5), fx(0.5));
    let len = (25.0f64 + 4.0 + 25.0).sqrt();
    assert!(near(centre.b, -5.0 / len, -2.0 / len, -5.0 / len, 1e-6));
    let hh = (25.0f64 * std::f64::consts::PI / 180.0).tan();
    assert!((fl(cam.vertical.length()) - 2.0 * hh).abs() < 1e-6);
    assert!((fl(cam.horizontal.length()) - 4.0 * hh).abs() < 1e-6);
    assert!(fl(cam.horizontal.dot(cam.vertical)).abs() < 1e-6);
    assert!(fl(cam.horizontal.e1).abs() < 1e-6);
}

#[test]
fn centre_ray_hits_the_sphere_in_front() {
    let white = Surface::Lambertian(Lambertian { albedo: v(1.0, 1.0, 1.0) });
    let world = HitableList {
        list: vec![Sphere { center: v(0.0, 0.0, -1.0), radius: fx(0.5), material: white }],
    };
    let cam = NoBlurCamera::new(
        v(0.0, 0.0, 0.0),
        v(0.0, 0.0, -1.0),
        v(0.0, 1.0, 0.0),
        half_height_of(90.0),
        fx(2.0),
    );
    let r = cam.get_ray(fx(0.5), fx(0.5));
    let rec = world.hit(r, fx(0.001), Scalar { raw: i64::MAX }).unwrap();
    assert!((fl(rec.t) - 0.5).abs() < 1e-6);
    assert!(near(rec.p, 0.0, 0.0, -0.5, 1e-6));
    assert!(near(rec.normal, 0.0, 0.0, 1.0, 1e-6));
    assert_eq!(rec.material, white);
}

#[test]
fn defocus_camera_scales_the_plane_by_the_focus_distance() {
    let cam = DefocusBlurCamera::new(
        v(0.0, 0.0, 0.0),
        v(0.0, 0.0, -1.0),
        v(0.0, 1.0, 0.0),
        fx(1.0),
        fx(2.0),
        fx(0.5),
        fx(3.0),
    );
    assert_eq!(cam.origin, v(0.0, 0.0, 0.0));
    assert_eq!(cam.lower_left_corner, v(-6.0, -3.0, -3.0));
    assert_eq!(cam.horizontal, v(12.0, 0.0, 0.0));
    assert_eq!(cam.vertical, v(0.0, 6.0, 0.0));
    assert_eq!(cam.u, v(1.0, 0.0, 0.0));
    assert_eq!(cam.v, v(0.0, 1.0, 0.0));
    assert_eq!(cam.w, v(0.0, 0.0, 1.0));
    assert_eq!(cam.lens_radius, fx(0.25));
}

#[test]
fn defocus_camera_rays_converge_on_the_focus_plane() {
    let cam = DefocusBlurCamera::new(
        v(0.0, 0.0, 0.0),
        v(0.0, 0.0, -1.0),
        v(0.0, 1.0, 0.0),
        fx(1.0),
        fx(2.0),
        fx(0.5),
        fx(3.0),
    );
    let through_centre = cam.get_ray_through(fx(0.5), fx(0.5), v(0.0, 0.0, 0.0));
    assert_eq!(through_centre.a, v(0.0, 0.0, 0.0));
    assert_eq!(through_centre.b, v(0.0, 0.0, -3.0));
    let off_centre = cam.get_ray_through(fx(0.5), fx(0.5), v(0.5, -1.0, 0.0));
    assert_eq!(off_centre.a, v(0.125, -0.25, 0.0));
    assert_eq!(off_centre.b, v(-0.125, 0.25, -3.0));
    assert_eq!(off_centre.a + off_centre.b, v(0.0, 0.0, -3.0));
    let corner = cam.get_ray_through(fx(1.0), fx(0.0), v(-1.0, 0.0, 0.0));
    assert_eq!(corner.a + corner.b, v(6.0, -3.0, -3.0));
}

#[test]
fn defocus_camera_draws_origins_on_the_lens() {
    let cam = DefocusBlurCamera::new(
        v(1.0, 2.0, 3.0),
        v(1.0, 2.0, 0.0),
        v(0.0, 1.0, 0.0),
        fx(0.5),
        fx(1.5),
        fx(0.5),
        fx(3.0),
    );
    let mut moved = false;
    for _ in 0..500 {
        let r = cam.get_ray(fx(0.5), fx(0.5));
        let shift = r.a - cam.origin;
        assert!(fl(shift.length()) <= 0.25 + 1e-8);
        assert_eq!(shift.e2.raw, 0);
        assert!(near(r.a + r.b, 1.0, 2.0, 0.0, 1e-8));
        if shift != v(0.0, 0.0, 0.0) {
            moved = true;
        }
    }
    assert!(moved);
}

#[test]
fn point_in_square_maps_the_unit_square() {
    assert_eq!(point_in_square(fx(0.0), fx(0.0)), v(-1.0, -1.0, 0.0));
    assert_eq!(point_in_square(fx(0.5), fx(0.5)), v(0.0, 0.0, 0.0));
    assert_eq!(point_in_square(fx(1.0), fx(0.25)), v(1.0, -0.5, 0.0));
}

#[test]
fn random_in_unit_disk_stays_inside_the_disk() {
    let first = random_in_unit_disk();
    let mut distinct = false;
    for _ in 0..2000 {
        let p = random_in_unit_disk();
        assert_eq!(p.e2.raw, 0);
        assert!(p.dot(p).raw < SCALE);
        if p != first {
            distinct = true;
        }
    }
    assert!(distinct);
}

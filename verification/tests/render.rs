use in_a_weekend::color::Color;
use in_a_weekend::fx::Fx;
use in_a_weekend::hittable::HitRecord;
use in_a_weekend::list::HittableList;
use in_a_weekend::material::{Dielectric, Lambertian, Material, Metal};
use in_a_weekend::p3::Point3;
use in_a_weekend::ray::Ray;
use in_a_weekend::rng::RngState;
use in_a_weekend::sampling::random_in_unit_sphere;
use in_a_weekend::sphere::Sphere;
use in_a_weekend::tracer::{ray_color, sample_pixel};
use in_a_weekend::v3::Vec3;

const SCALE_F: f64 = 4294967296.0;
const T_MAX_RAW: i64 = 2305843009213693952;

fn fx(v: f64) -> Fx {
    Fx { raw: (v * SCALE_F) as i64 }
}

fn to_f64(v: Fx) -> f64 {
    v.raw as f64 / SCALE_F
}

fn vec3(x: f64, y: f64, z: f64) -> Vec3 {
    Vec3 { e1: fx(x), e2: fx(y), e3: fx(z) }
}

fn point3(x: f64, y: f64, z: f64) -> Point3 {
    Point3::new(fx(x), fx(y), fx(z))
}

fn gray(v: f64) -> Color {
    Color::rgb(fx(v), fx(v), fx(v))
}

#[test]
fn sphere_hit_straight_on() {
    let material = Material::Lambertian(Lambertian::new(gray(0.5)));
    let sphere = Sphere::new(point3(0.0, 0.0, -1.0), fx(0.5), material);
    let ray = Ray::new(point3(0.0, 0.0, 0.0), vec3(0.0, 0.0, -1.0));
    let rec = sphere.hit(&ray, fx(0.001), Fx::from_raw(T_MAX_RAW)).expect("must hit");
    assert!((to_f64(rec.scale) - 0.5).abs() < 1e-9);
    assert_eq!(rec.normal, vec3(0.0, 0.0, 1.0));
    assert!(rec.front_face);
    assert_eq!(rec.point, point3(0.0, 0.0, -0.5));
}

#[test]
fn sphere_hit_normal_is_near_unit() {
    let material = Material::Lambertian(Lambertian::new(gray(0.5)));
    let sphere = Sphere::new(point3(0.0, 0.0, -2.0), fx(0.75), material);
    // an off-axis ray, so the normal is not axis-aligned
    let ray = Ray::new(point3(0.2, -0.1, 0.0), vec3(0.05, 0.1, -1.0));
    let rec = sphere.hit(&ray, fx(0.001), Fx::from_raw(T_MAX_RAW)).expect("must hit");
    assert!((to_f64(rec.normal.size()) - 1.0).abs() < 1e-7);
}

#[test]
fn sphere_missed_by_a_ray_aimed_away() {
    let material = Material::Lambertian(Lambertian::new(gray(0.5)));
    let sphere = Sphere::new(point3(0.0, 0.0, -1.0), fx(0.5), material);
    let ray = Ray::new(point3(0.0, 0.0, 0.0), vec3(0.0, 0.0, 1.0));
    assert!(sphere.hit(&ray, fx(0.001), Fx::from_raw(T_MAX_RAW)).is_none());
}

#[test]
fn list_returns_the_closest_hit() {
    let material = Material::Lambertian(Lambertian::new(gray(0.5)));
    let mut world = HittableList::new();
    world.add(Sphere::new(point3(0.0, 0.0, -3.0), fx(0.25), material));
    world.add(Sphere::new(point3(0.0, 0.0, -1.0), fx(0.25), material));
    let ray = Ray::new(point3(0.0, 0.0, 0.0), vec3(0.0, 0.0, -1.0));
    let rec = world.hit(&ray, fx(0.001), Fx::from_raw(T_MAX_RAW)).expect("must hit");
    assert!((to_f64(rec.scale) - 0.75).abs() < 1e-6);
}

#[test]
fn list_misses_when_all_members_miss() {
    let material = Material::Lambertian(Lambertian::new(gray(0.5)));
    let mut world = HittableList::new();
    world.add(Sphere::new(point3(0.0, 0.0, -3.0), fx(0.25), material));
    world.add(Sphere::new(point3(2.0, 0.0, -1.0), fx(0.25), material));
    let ray = Ray::new(point3(0.0, 0.0, 0.0), vec3(0.0, 1.0, 0.0));
    assert!(world.hit(&ray, fx(0.001), Fx::from_raw(T_MAX_RAW)).is_none());
}

#[test]
fn list_clear_empties_the_scene() {
    let material = Material::Lambertian(Lambertian::new(gray(0.5)));
    let mut world = HittableList::new();
    world.add(Sphere::new(point3(0.0, 0.0, -1.0), fx(0.5), material));
    world.clear();
    let ray = Ray::new(point3(0.0, 0.0, 0.0), vec3(0.0, 0.0, -1.0));
    assert!(world.hit(&ray, fx(0.001), Fx::from_raw(T_MAX_RAW)).is_none());
}

#[test]
fn front_face_flag_flips_the_normal() {
    let material = Material::Lambertian(Lambertian::new(gray(0.5)));
    // the ray travels along the geometric normal: it hits the back side
    let ray = Ray::new(point3(0.0, 0.0, 0.0), vec3(0.0, 0.0, 1.0));
    let rec = HitRecord::new(&ray, vec3(0.0, 0.0, 1.0), material, fx(1.0));
    assert!(!rec.front_face);
    assert_eq!(rec.normal, vec3(0.0, 0.0, -1.0));
    // against the geometric normal: outside, kept as is
    let ray2 = Ray::new(point3(0.0, 0.0, 0.0), vec3(0.0, 0.0, -1.0));
    let rec2 = HitRecord::new(&ray2, vec3(0.0, 0.0, 1.0), material, fx(1.0));
    assert!(rec2.front_face);
    assert_eq!(rec2.normal, vec3(0.0, 0.0, 1.0));
}

#[test]
fn depth_zero_is_pure_black() {
    let material = Material::Lambertian(Lambertian::new(gray(0.5)));
    let mut world = HittableList::new();
    world.add(Sphere::new(point3(0.0, 0.0, -1.0), fx(0.5), material));
    let mut rng = RngState::from_seed(1);
    let ray = Ray::new(point3(0.0, 0.0, 0.0), vec3(0.0, 0.0, -1.0));
    let c = ray_color(&ray, &world, 0, &mut rng);
    assert_eq!(c, Color::rgb(fx(0.0), fx(0.0), fx(0.0)));
}

#[test]
fn missed_rays_fall_through_to_the_background_gradient() {
    let material = Material::Lambertian(Lambertian::new(gray(0.5)));
    let mut world = HittableList::new();
    world.add(Sphere::new(point3(0.0, 0.0, -1.0), fx(0.5), material));
    let mut rng = RngState::from_seed(1);
    // straight along +z: height term is zero, an even blend
    let ray = Ray::new(point3(0.0, 0.0, 0.0), vec3(0.0, 0.0, 1.0));
    let c = ray_color(&ray, &world, 50, &mut rng);
    assert!((to_f64(c.r()) - 0.625).abs() < 1e-3);
    assert!((to_f64(c.g()) - 0.745).abs() < 1e-3);
    assert!((to_f64(c.b()) - 1.0).abs() < 1e-3);
    // straight up: pure zenith color, gamma-encoded (0.25, 0.49, 1.0)
    let up = Ray::new(point3(0.0, 0.0, 0.0), vec3(0.0, 1.0, 0.0));
    let z = ray_color(&up, &world, 50, &mut rng);
    assert!((to_f64(z.r()) - 0.25).abs() < 1e-3);
    assert!((to_f64(z.g()) - 0.49).abs() < 1e-3);
    assert!((to_f64(z.b()) - 1.0).abs() < 1e-3);
}

#[test]
fn metal_rejects_scatter_into_the_surface() {
    let metal = Metal::new(gray(0.8), fx(1.0));
    let material = Material::Metal(metal);
    let ray = Ray::new(point3(0.0, 0.0, 1.0), vec3(0.0, 0.0, -1.0));
    let rec = HitRecord::new(&ray, vec3(0.0, 0.0, 1.0), material, fx(1.0));
    // a fuzz offset strong enough to push the reflection below the surface
    let fuzz_vec = vec3(0.0, 0.0, -2.0);
    assert!(metal.scatter_with(&ray, &rec, fuzz_vec).is_none());
}

#[test]
fn metal_mirrors_without_fuzz() {
    let metal = Metal::new(gray(0.8), fx(0.0));
    let material = Material::Metal(metal);
    let ray = Ray::new(point3(0.0, 0.0, 1.0), vec3(0.0, 0.0, -1.0));
    let rec = HitRecord::new(&ray, vec3(0.0, 0.0, 1.0), material, fx(1.0));
    let s = metal.scatter_with(&ray, &rec, vec3(0.0, 0.0, 0.0)).expect("mirror scatters");
    assert_eq!(s.ray().dir(), vec3(0.0, 0.0, 1.0));
    assert_eq!(s.attenuation(), gray(0.8));
    assert_eq!(s.ray().origin(), rec.point);
}

#[test]
fn perpendicular_dielectric_entry_refracts() {
    let glass = Dielectric::new(fx(1.5));
    let material = Material::Dielectric(glass);
    let ray = Ray::new(point3(0.0, 0.0, 1.0), vec3(0.0, 0.0, -1.0));
    let rec = HitRecord::new(&ray, vec3(0.0, 0.0, 1.0), material, fx(1.0));
    assert!(rec.front_face);
    // at perpendicular incidence the Schlick reflectance is about 0.04;
    // a draw above it must choose refraction, which passes straight through
    let s = glass.scatter_with(&ray, &rec, fx(0.5));
    assert_eq!(s.ray().dir(), vec3(0.0, 0.0, -1.0));
    assert_eq!(s.attenuation(), gray(1.0));
    // a reflection would have sent it back along +z instead
    assert!(s.ray().dir().z().raw < 0);
}

#[test]
fn random_vectors_stay_inside_the_requested_box() {
    let mut rng = RngState::from_seed(11);
    for _ in 0..100 {
        let v = Vec3::random(fx(-1.0), fx(1.0), &mut rng);
        for c in [v.x(), v.y(), v.z()] {
            assert!(-1.0 <= to_f64(c) && to_f64(c) <= 1.0);
        }
    }
}

#[test]
fn unit_ball_samples_stay_in_the_ball() {
    let mut rng = RngState::from_seed(9);
    for _ in 0..200 {
        let v = random_in_unit_sphere(&mut rng);
        let len = to_f64(v.size());
        assert!(len < 1.0 + 1e-6);
        assert!(len > 0.49);
    }
}

#[test]
fn seeded_draws_are_reproducible_and_in_range() {
    let mut a = RngState::from_seed(123);
    let mut b = RngState::from_seed(123);
    let mut all_equal = true;
    let mut first = None;
    for _ in 0..100 {
        let x = a.next_unit();
        let y = b.next_unit();
        assert_eq!(x, y);
        assert!(0 <= x.raw && x.raw < 4294967296);
        match first {
            None => first = Some(x),
            Some(f) => {
                if f != x {
                    all_equal = false;
                }
            },
        }
    }
    assert!(!all_equal, "a hundred uniform draws must not all collide");
}

#[test]
fn sample_pixel_of_depth_zero_is_black() {
    let material = Material::Lambertian(Lambertian::new(gray(0.5)));
    let mut world = HittableList::new();
    world.add(Sphere::new(point3(0.0, 0.0, -1.0), fx(0.5), material));
    let mut rng = RngState::from_seed(4);
    let rays = vec![Ray::new(point3(0.0, 0.0, 0.0), vec3(0.0, 0.0, -1.0))];
    let c = sample_pixel(&rays, &world, 0, &mut rng);
    assert_eq!(c, Color::rgb(fx(0.0), fx(0.0), fx(0.0)));
}

#[test]
fn wf_checks_accept_the_standard_scene_and_reject_bad_parts() {
    let matte = Material::Lambertian(Lambertian::new(gray(0.5)));
    let mut world = HittableList::new();
    world.add(Sphere::new(point3(0.0, -100.5, -1.0), fx(100.0), matte));
    world.add(Sphere::new(point3(0.0, 0.0, -1.0), fx(0.5), matte));
    assert!(world.is_wf());
    let bad_albedo = Material::Lambertian(Lambertian::new(gray(1.5)));
    assert!(!bad_albedo.is_wf());
    let zero_radius = Sphere::new(point3(0.0, 0.0, 0.0), fx(0.0), matte);
    assert!(!zero_radius.is_wf());
}

#[test]
fn two_sphere_scene_reproduces_the_golden_pixel() {
    let ground = Material::Lambertian(Lambertian::new(Color::rgb(fx(0.8), fx(0.8), fx(0.0))));
    let center = Material::Lambertian(Lambertian::new(Color::rgb(fx(0.7), fx(0.3), fx(0.3))));
    let mut world = HittableList::new();
    world.add(Sphere::new(point3(0.0, -100.5, -1.0), fx(100.0), ground));
    world.add(Sphere::new(point3(0.0, 0.0, -1.0), fx(0.5), center));
    let mut rng = RngState::from_seed(7);
    let ray = Ray::new(point3(0.0, 0.0, 0.0), vec3(0.0, 0.0, -1.0));
    let mut acc = Color::rgb(fx(0.0), fx(0.0), fx(0.0));
    for _ in 0..16 {
        acc.add_assign(ray_color(&ray, &world, 50, &mut rng));
    }
    let c = acc.sampled(16).gamma_corrected();
    // the fixed seed makes the sampled path deterministic; the expected
    // channel values are pinned to within a small tolerance
    assert!((c.r().raw - 2450696244).abs() <= 1000);
    assert!((c.g().raw - 1846754271).abs() <= 1000);
    assert!((c.b().raw - 1950548887).abs() <= 1000);
}

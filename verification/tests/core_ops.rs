use in_a_weekend::color::Color;
use in_a_weekend::fx::Fx;
use in_a_weekend::p3::Point3;
use in_a_weekend::ppm::{Ppm, Rect};
use in_a_weekend::v3::{lerp, Vec3};

const SCALE_F: f64 = 4294967296.0;

fn fx(v: f64) -> Fx {
    Fx { raw: (v * SCALE_F) as i64 }
}

fn to_f64(v: Fx) -> f64 {
    v.raw as f64 / SCALE_F
}

fn vec3(x: f64, y: f64, z: f64) -> Vec3 {
    Vec3 { e1: fx(x), e2: fx(y), e3: fx(z) }
}

#[test]
pub fn negates_add_up_to_zero() {
    let v = Vec3::new(fx(1.0), fx(0.0), fx(-1.0));
    let v_neg = v.clone().neg();
    assert_eq!(v.add(v_neg), Vec3::zero());
}

#[test]
pub fn v3_negates_add_up_to_zero() {
    let v = Vec3::new(fx(1.0), fx(0.0), fx(-1.0));
    let v_neg = v.clone().neg();
    assert_eq!(v.add(v_neg), Vec3::zero());
}

#[test]
pub fn lerp_does_what_i_think_it_does() {
    let lerp_min = lerp(fx(-2.0), fx(2.0), fx(0.0));
    let lerp_max = lerp(fx(-2.0), fx(2.0), fx(1.0));
    fn close_enough(a: f64, b: f64) -> bool {
        (a - b).abs() < 1e-10
    }
    assert!(close_enough(to_f64(lerp_min), -2.0));
    assert!(close_enough(to_f64(lerp_max), 2.0));
}

#[test]
fn lerp_endpoints_are_exact() {
    assert_eq!(lerp(fx(-2.0), fx(2.0), fx(0.0)), fx(-2.0));
    assert_eq!(lerp(fx(-2.0), fx(2.0), fx(1.0)), fx(2.0));
    assert_eq!(lerp(fx(3.5), fx(7.25), fx(0.0)), fx(3.5));
    assert_eq!(lerp(fx(3.5), fx(7.25), fx(1.0)), fx(7.25));
}

#[test]
fn normalized_has_unit_size() {
    let v = vec3(1.0, 2.0, 3.0);
    let n = v.normalized();
    assert!((to_f64(n.size()) - 1.0).abs() < 1e-9);
    let w = vec3(-1000.0, 0.25, 17.0);
    let n2 = w.normalized();
    assert!((to_f64(n2.size()) - 1.0).abs() < 1e-9);
}

#[test]
fn dot_and_cross_products() {
    let a = vec3(1.0, 2.0, 3.0);
    let b = vec3(4.0, -5.0, 6.0);
    assert_eq!(Vec3::dot(a, b), fx(4.0 - 10.0 + 18.0));
    let x = vec3(1.0, 0.0, 0.0);
    let y = vec3(0.0, 1.0, 0.0);
    assert_eq!(Vec3::cross(x, y), vec3(0.0, 0.0, 1.0));
    assert_eq!(Vec3::cross(y, x), vec3(0.0, 0.0, -1.0));
}

#[test]
fn vector_size_is_exact_on_pythagorean_triples() {
    let v = vec3(3.0, 4.0, 0.0);
    assert_eq!(v.size(), fx(5.0));
}

#[test]
fn scalar_sqrt_is_exact_on_squares() {
    assert_eq!(Fx::from_int(4).sqrt(), Fx::from_int(2));
    assert_eq!(fx(0.25).sqrt(), fx(0.5));
}

#[test]
fn scalar_ops_saturate_instead_of_wrapping() {
    let lim: i64 = 2305843009213693952;
    let top = Fx::from_raw(i64::MAX);
    assert_eq!(top.raw, lim);
    assert_eq!(top.add(Fx::one()).raw, lim);
    assert_eq!(Fx::from_raw(-i64::MAX).sub(Fx::one()).raw, -lim);
}

#[test]
fn point_arithmetic_keeps_points_and_vectors_apart() {
    let p = Point3::new(fx(1.0), fx(2.0), fx(3.0));
    let q = Point3::new(fx(0.5), fx(0.0), fx(-1.0));
    let d = p.sub(q);
    assert_eq!(d, vec3(0.5, 2.0, 4.0));
    assert_eq!(q.add(d), p);
    assert_eq!(p.sub_vec(d), q);
}

#[test]
fn color_sampled_averages_and_clamps() {
    let c = Color::rgb(fx(2.0), fx(-1.0), fx(0.5));
    let s = c.sampled(2);
    assert_eq!(s, Color::rgb(fx(1.0), fx(0.0), fx(0.25)));
}

#[test]
fn gamma_round_trip_on_exact_squares() {
    let c = Color::rgb(fx(0.25), fx(1.0), fx(0.0));
    assert_eq!(c.gamma_corrected(), Color::rgb(fx(0.5), fx(1.0), fx(0.0)));
    let g = Color::rgb(fx(0.5), fx(1.0), fx(0.0)).into_gamma();
    assert_eq!(g, Color::rgb(fx(0.25), fx(1.0), fx(0.0)));
}

#[test]
fn reinhard_tone_maps() {
    let c = Color::rgb(fx(1.0), fx(0.0), fx(3.0));
    assert_eq!(c.reinhard(), Color::rgb(fx(0.5), fx(0.0), fx(0.75)));
}

#[test]
fn color_attenuation_multiplies_elementwise() {
    let a = Color::rgb(fx(0.5), fx(1.0), fx(0.0));
    let b = Color::rgb(fx(0.5), fx(0.25), fx(1.0));
    assert_eq!(a.mul(b), Color::rgb(fx(0.25), fx(0.25), fx(0.0)));
}

#[test]
fn color_accumulates() {
    let mut c = Color::rgb(fx(0.25), fx(0.0), fx(1.0));
    c.add_assign(Color::rgb(fx(0.25), fx(0.5), fx(1.0)));
    assert_eq!(c, Color::rgb(fx(0.5), fx(0.5), fx(2.0)));
}

#[test]
fn from_normal_maps_into_unit_range() {
    let c = Color::from_normal(vec3(-1.0, 0.0, 1.0));
    assert_eq!(c, Color::rgb(fx(0.0), fx(0.5), fx(1.0)));
}

#[test]
fn ppm_renders_a_single_pixel() {
    let ppm = Ppm::new(Rect { width: 1, height: 1 });
    let colors = vec![Color::rgb(fx(1.0), fx(0.0), fx(0.5))];
    let bytes = ppm.render(&colors);
    // channel bytes are floor(255.999 * c): 0.5 maps to 127, 1.0 to 255
    assert_eq!(bytes, b"P3\n1 1\n255\n255 0 127\n".to_vec());
}

#[test]
fn ppm_emits_rows_top_down() {
    let ppm = Ppm::new(Rect { width: 2, height: 2 });
    // row 0 is the bottom of the image: red then green;
    // row 1 is the top: blue then white
    let colors = vec![
        Color::rgb(fx(1.0), fx(0.0), fx(0.0)),
        Color::rgb(fx(0.0), fx(1.0), fx(0.0)),
        Color::rgb(fx(0.0), fx(0.0), fx(1.0)),
        Color::rgb(fx(1.0), fx(1.0), fx(1.0)),
    ];
    let bytes = ppm.render(&colors);
    let expected = b"P3\n2 2\n255\n0 0 255\n255 255 255\n255 0 0\n0 255 0\n".to_vec();
    assert_eq!(bytes, expected);
}

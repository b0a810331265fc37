use ray_trace::double::Double;
use ray_trace::hitable::HitRecord;
use ray_trace::material::{
    can_refract, clamp_fuzz, is_leaving, outward_normal, Material, Refraction, ScatterSample,
};
use ray_trace::ray::Ray;
use ray_trace::util::{Color, Vec3f};

fn d(x: f64) -> Double {
    Double::from_bits(x.to_bits())
}

fn f(x: Double) -> f64 {
    f64::from_bits(x.to_bits())
}

fn v(a: [f64; 3]) -> Vec3f {
    Vec3f::new(d(a[0]), d(a[1]), d(a[2]))
}

fn dot(a: [f64; 3], b: [f64; 3]) -> f64 {
    a[0] * b[0] + a[1] * b[1] + a[2] * b[2]
}

fn reflect(dir: [f64; 3], n: [f64; 3]) -> [f64; 3] {
    let k = dot(dir, n) * 2.0;
    [dir[0] - n[0] * k, dir[1] - n[1] * k, dir[2] - n[2] * k]
}

fn schlick(cosine: f64, ri: f64) -> f64 {
    let mut r0 = (1.0 - ri) / (1.0 + ri);
    r0 = r0 * r0;
    r0 + (1.0 - r0) * f64::powi(1.0 - cosine, 5)
}

fn record_at(p: [f64; 3], normal: [f64; 3], material: Material) -> HitRecord {
    HitRecord { t: d(1.0), p: v(p), normal: v(normal), material }
}

fn start() -> (Color, Ray) {
    (
        Color::new(d(0.0), d(0.0), d(0.0)),
        Ray::new(&Vec3f::new_unit_vec3f(), &Vec3f::new_unit_vec3f()),
    )
}

fn white() -> Color {
    Color::new(d(1.0), d(1.0), d(1.0))
}

#[test]
fn diffuse_always_scatters_with_its_albedo() {
    let albedo = Color::new(d(0.8), d(0.3), d(0.3));
    let m = Material::Diffuse(albedo);
    let rec = record_at([0.0, 0.0, -0.5], [0.0, 0.0, 1.0], m);
    let sample = ScatterSample::Diffuse { direction: v([0.1, -0.2, 1.3]) };
    let (mut att, mut out) = start();
    assert!(m.scatter(&rec, &sample, &mut att, &mut out));
    assert_eq!(att, albedo);
    assert_eq!(out.origin(), v([0.0, 0.0, -0.5]));
    assert_eq!(out.direction(), v([0.1, -0.2, 1.3]));
}

#[test]
fn metal_without_fuzz_mirrors_the_ray() {
    let albedo = Color::new(d(0.7), d(0.5), d(0.5));
    let m = Material::Metal(albedo, d(0.0));
    let n = [0.0, 1.0, 0.0];
    let mirrored = reflect([1.0, -1.0, 0.0], n);
    assert_eq!(mirrored, [1.0, 1.0, 0.0]);
    let fuzz = f(clamp_fuzz(d(0.0)));
    assert_eq!(fuzz, 0.0);
    let point = [0.3, -0.4, 0.5];
    let direction =
        [mirrored[0] + point[0] * fuzz, mirrored[1] + point[1] * fuzz, mirrored[2] + point[2] * fuzz];
    let rec = record_at([2.0, 0.0, 0.0], n, m);
    let sample = ScatterSample::Metal { direction: v(direction), facing: d(dot(direction, n)) };
    let (mut att, mut out) = start();
    assert!(m.scatter(&rec, &sample, &mut att, &mut out));
    assert_eq!(att, albedo);
    assert_eq!(out.origin(), v([2.0, 0.0, 0.0]));
    assert_eq!(out.direction(), v([1.0, 1.0, 0.0]));
}

#[test]
fn metal_absorbs_what_points_into_the_surface() {
    let albedo = Color::new(d(0.7), d(0.5), d(0.5));
    let m = Material::Metal(albedo, d(1.0));
    let rec = record_at([0.0, 0.0, 0.0], [0.0, 1.0, 0.0], m);
    for facing in [0.0, -0.0, -0.25, -1e-300, f64::NAN] {
        let sample = ScatterSample::Metal { direction: v([1.0, facing, 0.0]), facing: d(facing) };
        let (mut att, mut out) = start();
        assert!(!m.scatter(&rec, &sample, &mut att, &mut out));
        assert_eq!(att, albedo);
        assert_eq!(out.origin(), v([0.0, 0.0, 0.0]));
    }
    let sample = ScatterSample::Metal { direction: v([1.0, 1e-300, 0.0]), facing: d(1e-300) };
    let (mut att, mut out) = start();
    assert!(m.scatter(&rec, &sample, &mut att, &mut out));
}

#[test]
fn fuzz_is_held_to_at_most_one() {
    assert_eq!(f(clamp_fuzz(d(0.0))), 0.0);
    assert_eq!(f(clamp_fuzz(d(0.3))), 0.3);
    assert_eq!(f(clamp_fuzz(d(1.0))), 1.0);
    assert_eq!(f(clamp_fuzz(d(1.5))), 1.0);
    assert_eq!(f(clamp_fuzz(d(f64::INFINITY))), 1.0);
    assert_eq!(f(clamp_fuzz(d(f64::NAN))), 1.0);
    assert_eq!(f(clamp_fuzz(d(-2.0))), -2.0);
}

#[test]
fn glass_takes_no_light_away() {
    let m = Material::Dielectric(d(1.5));
    let rec = record_at([0.0, 0.0, -0.5], [0.0, 0.0, 1.0], m);
    let sample = ScatterSample::Dielectric {
        reflected: v([0.0, 0.0, 1.0]),
        refraction: Some(Refraction { direction: v([0.0, 0.0, -1.0]), reflectance: d(0.04) }),
        coin: d(0.5),
    };
    let (mut att, mut out) = start();
    assert!(m.scatter(&rec, &sample, &mut att, &mut out));
    assert_eq!(att, white());
    assert_eq!(out.origin(), v([0.0, 0.0, -0.5]));
}

#[test]
fn glass_reflects_below_the_reflectance_and_refracts_from_it_on() {
    let m = Material::Dielectric(d(1.5));
    let rec = record_at([0.0, 0.0, -0.5], [0.0, 0.0, 1.0], m);
    let reflected = v([0.0, 0.0, 1.0]);
    let refracted = v([0.0, 0.0, -1.0]);
    let cases = [(0.0, true), (0.039_999, true), (0.04, false), (0.5, false), (0.999, false)];
    for (coin, mirrors) in cases {
        let sample = ScatterSample::Dielectric {
            reflected,
            refraction: Some(Refraction { direction: refracted, reflectance: d(0.04) }),
            coin: d(coin),
        };
        let (mut att, mut out) = start();
        assert!(m.scatter(&rec, &sample, &mut att, &mut out));
        assert_eq!(out.direction(), if mirrors { reflected } else { refracted });
    }
}

#[test]
fn total_reflection_mirrors_every_ray() {
    let m = Material::Dielectric(d(1.5));
    let rec = record_at([0.0, 0.0, -0.5], [0.0, 0.0, 1.0], m);
    let reflected = v([0.6, 0.0, 0.8]);
    for coin in [0.0, 0.25, 0.5, 0.999_999_999] {
        let sample = ScatterSample::Dielectric { reflected, refraction: None, coin: d(coin) };
        let (mut att, mut out) = start();
        assert!(m.scatter(&rec, &sample, &mut att, &mut out));
        assert_eq!(att, white());
        assert_eq!(out.direction(), reflected);
        assert_eq!(out.origin(), v([0.0, 0.0, -0.5]));
    }
}

#[test]
fn reflectance_at_normal_incidence_is_r0() {
    for ri in [1.5_f64, 1.33, 2.4] {
        let r0 = ((1.0 - ri) / (1.0 + ri)) * ((1.0 - ri) / (1.0 + ri));
        assert_eq!(schlick(1.0, ri), r0);
        let m = Material::Dielectric(d(ri));
        let rec = record_at([0.0, 0.0, 0.0], [0.0, 0.0, 1.0], m);
        let reflected = v([0.0, 0.0, 1.0]);
        let refracted = v([0.0, 0.0, -1.0]);
        let bent = Refraction { direction: refracted, reflectance: d(schlick(1.0, ri)) };
        let below = ScatterSample::Dielectric {
            reflected,
            refraction: Some(bent),
            coin: d(r0 * 0.999),
        };
        let at = ScatterSample::Dielectric { reflected, refraction: Some(bent), coin: d(r0) };
        let (mut att, mut out) = start();
        assert!(m.scatter(&rec, &below, &mut att, &mut out));
        assert_eq!(out.direction(), reflected);
        assert!(m.scatter(&rec, &at, &mut att, &mut out));
        assert_eq!(out.direction(), refracted);
    }
}

#[test]
fn no_material_scatters_and_leaves_the_outputs() {
    let m = Material::new();
    let rec = record_at([0.0, 0.0, -0.5], [0.0, 0.0, 1.0], m);
    let sample = ScatterSample::Diffuse { direction: v([0.0, 1.0, 0.0]) };
    let (mut att, mut out) = start();
    let (att0, out0) = (att, out);
    assert!(m.scatter(&rec, &sample, &mut att, &mut out));
    assert_eq!(att, att0);
    assert_eq!(out, out0);
}

#[test]
fn a_sample_suits_the_material_of_its_kind() {
    let grey = Color::new(d(0.5), d(0.5), d(0.5));
    let diffuse = ScatterSample::Diffuse { direction: v([0.0, 1.0, 0.0]) };
    let metal = ScatterSample::Metal { direction: v([0.0, 1.0, 0.0]), facing: d(1.0) };
    let glass =
        ScatterSample::Dielectric { reflected: v([0.0, 1.0, 0.0]), refraction: None, coin: d(0.5) };
    let materials =
        [Material::NoMaterial, Material::Diffuse(grey), Material::Metal(grey, d(0.1)), Material::Dielectric(d(1.5))];
    let expected = [[true, true, true], [true, false, false], [false, true, false], [false, false, true]];
    for (m, row) in materials.iter().zip(expected.iter()) {
        assert_eq!(diffuse.suits(m), row[0]);
        assert_eq!(metal.suits(m), row[1]);
        assert_eq!(glass.suits(m), row[2]);
    }
}

#[test]
fn a_ray_leaves_the_glass_when_it_runs_along_the_normal() {
    assert!(is_leaving(d(0.7)));
    assert!(is_leaving(d(1e-300)));
    assert!(!is_leaving(d(0.0)));
    assert!(!is_leaving(d(-0.7)));
    assert!(!is_leaving(d(f64::NAN)));
}

#[test]
fn refraction_needs_a_discriminant_above_zero() {
    // head-on into glass of index 1.5
    let ni_over_nt: f64 = 1.0 / 1.5;
    let dt: f64 = -1.0;
    assert!(can_refract(d(1.0 - ni_over_nt * ni_over_nt * (1.0 - dt * dt))));
    // grazing, out of the glass
    let ni_over_nt: f64 = 1.5;
    let dt: f64 = -0.1;
    assert!(!can_refract(d(1.0 - ni_over_nt * ni_over_nt * (1.0 - dt * dt))));
    assert!(!can_refract(d(0.0)));
    assert!(!can_refract(d(f64::NAN)));
}

#[test]
fn the_outward_normal_points_against_the_ray() {
    let n = v([0.0, 1.0, 0.0]);
    // leaving: the ray runs along the normal
    assert_eq!(outward_normal(&n, d(0.8)), v([-0.0, -1.0, -0.0]));
    // entering: the ray runs against it
    assert_eq!(outward_normal(&n, d(-0.8)), n);
    assert_eq!(outward_normal(&n, d(0.0)), n);
    assert_eq!(outward_normal(&n, d(f64::NAN)), n);
}

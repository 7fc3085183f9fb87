use rand::rngs::StdRng;
use rand::SeedableRng;

use ray_tracing::hittable::material::dielectric::Dielectric;
use ray_tracing::hittable::material::lambertian::Lambertian;
use ray_tracing::hittable::material::metal::Metal;
use ray_tracing::hittable::material::Material;
use ray_tracing::hittable::Scattering;
use ray_tracing::point3::Point3;
use ray_tracing::ray::Ray;
use ray_tracing::utility::scalar::Scalar;
use ray_tracing::vec3::Vec3;

fn s(x: f64) -> Scalar {
    Scalar::from_bits(x.to_bits())
}

fn f(x: Scalar) -> f64 {
    f64::from_bits(x.to_bits())
}

fn v(x: f64, y: f64, z: f64) -> Vec3 {
    Vec3::new(s(x), s(y), s(z))
}

fn p(x: f64, y: f64, z: f64) -> Point3 {
    Point3::new(s(x), s(y), s(z))
}

fn dot(a: [f64; 3], b: [f64; 3]) -> f64 {
    a[0] * b[0] + a[1] * b[1] + a[2] * b[2]
}

/// `d - 2 (d . n) n`, in doubles.
fn reflect(d: [f64; 3], n: [f64; 3]) -> [f64; 3] {
    let k = 2.0 * dot(d, n);
    [d[0] - k * n[0], d[1] - k * n[1], d[2] - k * n[2]]
}

#[test]
fn lambertian_keeps_its_albedo() {
    let matte = Lambertian::new(v(0.1, 0.2, 0.5));
    assert_eq!(matte.albedo, v(0.1, 0.2, 0.5));
}

#[test]
fn lambertian_scatters_along_the_offered_direction() {
    let matte = Lambertian::new(v(0.5, 0.5, 0.5));
    let origin = p(0.0, 0.0, -0.5);
    let got = matte.scatter(origin, v(0.0, 0.0, 1.0), v(0.3, -0.2, 1.7));
    let want = Scattering { attenuation: v(0.5, 0.5, 0.5), scattered: Ray::new(origin, v(0.3, -0.2, 1.7)) };
    assert_eq!(got, Some(want));
}

#[test]
fn lambertian_falls_back_to_the_normal() {
    let matte = Lambertian::new(v(0.8, 0.8, 0.0));
    let origin = p(1.0, 2.0, 3.0);
    let normal = v(0.0, 1.0, 0.0);
    for offered in [v(0.0, 0.0, 0.0), v(1e-9, -1e-9, 5e-10), v(-0.0, 9.9e-9, 0.0)] {
        let got = matte.scatter(origin, normal, offered).unwrap();
        assert_eq!(got.scattered.direction, normal);
        assert_eq!(got.scattered.origin, origin);
        assert_eq!(got.attenuation, v(0.8, 0.8, 0.0));
    }
}

#[test]
fn lambertian_never_scatters_along_a_vanishing_direction() {
    let matte = Lambertian::new(v(0.4, 0.2, 0.1));
    let normal = v(0.6, 0.0, -0.8);
    let offsets = [-1.0, -0.8, -0.6, -1e-9, 0.0, 1e-9, 0.6, 0.8, 1.0];
    for dx in offsets {
        for dy in offsets {
            for dz in offsets {
                let offered = v(0.6 + dx, 0.0 + dy, -0.8 + dz);
                let got = matte.scatter(p(0.0, 0.0, 0.0), normal, offered).unwrap();
                assert!(!got.scattered.direction.near_zero());
                assert_eq!(got.attenuation, v(0.4, 0.2, 0.1));
            }
        }
    }
}

#[test]
fn metal_holds_its_fuzz_between_zero_and_one() {
    assert_eq!(f(Metal::new(v(0.8, 0.8, 0.8), s(0.3)).fuzz_factor), 0.3);
    assert_eq!(f(Metal::new(v(0.8, 0.8, 0.8), s(0.0)).fuzz_factor), 0.0);
    assert_eq!(f(Metal::new(v(0.8, 0.8, 0.8), s(1.0)).fuzz_factor), 1.0);
    assert_eq!(f(Metal::new(v(0.8, 0.8, 0.8), s(1.5)).fuzz_factor), 1.0);
    assert_eq!(f(Metal::new(v(0.8, 0.8, 0.8), s(f64::INFINITY)).fuzz_factor), 1.0);
    assert_eq!(f(Metal::new(v(0.8, 0.8, 0.8), s(f64::NAN)).fuzz_factor), 1.0);
    assert_eq!(f(Metal::new(v(0.8, 0.8, 0.8), s(-0.5)).fuzz_factor), 0.0);
    assert_eq!(Metal::new(v(0.7, 0.6, 0.5), s(0.0)).albedo, v(0.7, 0.6, 0.5));
}

#[test]
fn metal_without_fuzz_mirrors_a_head_on_ray() {
    let mirror = Metal::new(v(0.7, 0.6, 0.5), s(0.0));
    let incoming = [0.0, 0.0, -1.0];
    let normal = [0.0, 0.0, 1.0];
    let mirrored = reflect(incoming, normal);
    assert_eq!(mirrored, [0.0, 0.0, 1.0]);
    let fuzz = f(mirror.fuzz_factor);
    let direction = [mirrored[0] + fuzz * 0.3, mirrored[1] + fuzz * 0.4, mirrored[2] + fuzz * 0.5];
    let origin = p(0.0, 0.0, -0.5);
    let got = mirror.scatter(
        origin,
        v(direction[0], direction[1], direction[2]),
        s(dot(direction, normal)),
    );
    let want = Scattering { attenuation: v(0.7, 0.6, 0.5), scattered: Ray::new(origin, v(0.0, 0.0, 1.0)) };
    assert_eq!(got, Some(want));
}

#[test]
fn metal_swallows_a_ray_that_ends_up_below_the_surface() {
    let rough = Metal::new(v(0.8, 0.8, 0.0), s(1.0));
    let origin = p(0.0, 0.0, 0.0);
    assert_eq!(rough.scatter(origin, v(0.9, 0.0, -0.1), s(-0.1)), None);
    assert_eq!(rough.scatter(origin, v(1.0, 0.0, 0.0), s(0.0)), None);
    assert_eq!(rough.scatter(origin, v(1.0, 0.0, 0.0), s(-0.0)), None);
    assert_eq!(rough.scatter(origin, v(1.0, 0.0, 0.0), s(f64::NAN)), None);
    assert!(rough.scatter(origin, v(0.9, 0.0, 0.1), s(1e-300)).is_some());
}

#[test]
fn dielectric_keeps_its_index() {
    assert_eq!(f(Dielectric::new(s(1.5)).refraction_index), 1.5);
}

#[test]
fn dielectric_ratio_depends_on_the_side() {
    let glass = Dielectric::new(s(1.5));
    assert_eq!(f(glass.ratio(true, s(1.0 / 1.5))), 1.0 / 1.5);
    assert_eq!(f(glass.ratio(false, s(1.0 / 1.5))), 1.5);
}

#[test]
fn dielectric_must_reflect_past_the_critical_angle() {
    assert!(Dielectric::reflects(s(1.2), s(0.0), s(0.99)));
    assert!(Dielectric::reflects(s(1.0000000000000002), s(0.0), s(0.5)));
    assert!(!Dielectric::reflects(s(1.0), s(0.0), s(0.5)));
}

#[test]
fn dielectric_reflects_when_the_draw_is_below_the_reflectance() {
    assert!(Dielectric::reflects(s(0.5), s(0.04), s(0.03)));
    assert!(!Dielectric::reflects(s(0.5), s(0.04), s(0.04)));
    assert!(!Dielectric::reflects(s(0.5), s(0.04), s(0.9)));
    assert!(!Dielectric::reflects(s(0.5), s(0.0), s(0.0)));
}

#[test]
fn dielectric_attenuates_nothing() {
    let glass = Dielectric::new(s(1.5));
    let origin = p(0.0, 0.0, -0.5);
    let reflected = v(0.0, 0.6, 0.8);
    let refracted = v(0.0, 0.3, -0.9);
    let bounced = glass.scatter_with(origin, s(0.4), s(0.2), s(0.1), reflected, refracted);
    let passed = glass.scatter_with(origin, s(0.4), s(0.2), s(0.7), reflected, refracted);
    let trapped = glass.scatter_with(origin, s(1.3), s(0.2), s(0.7), reflected, refracted);
    let white = v(1.0, 1.0, 1.0);
    assert_eq!(bounced, Some(Scattering { attenuation: white, scattered: Ray::new(origin, reflected) }));
    assert_eq!(passed, Some(Scattering { attenuation: white, scattered: Ray::new(origin, refracted) }));
    assert_eq!(trapped, Some(Scattering { attenuation: white, scattered: Ray::new(origin, reflected) }));
}

#[test]
fn dielectric_of_index_one_passes_a_refracted_ray_unbent() {
    let air = Dielectric::new(s(1.0));
    assert_eq!(f(air.ratio(true, s(1.0 / 1.0))), 1.0);
    assert_eq!(f(air.ratio(false, s(1.0 / 1.0))), 1.0);
    let normal = [0.0, 0.0, 1.0];
    for incoming in [[0.0, 0.0, -1.0], [0.6, 0.0, -0.8], [0.0, -0.8, -0.6], [0.28, 0.0, -0.96]] {
        let cos = dot([-incoming[0], -incoming[1], -incoming[2]], normal).min(1.0);
        let sin = (1.0 - cos * cos).sqrt();
        let reflectance = (1.0 - cos).powi(5);
        let mirrored = reflect(incoming, normal);
        let got = air
            .scatter_with(
                p(0.0, 0.0, 0.0),
                s(1.0 * sin),
                s(reflectance),
                s(reflectance),
                v(mirrored[0], mirrored[1], mirrored[2]),
                v(incoming[0], incoming[1], incoming[2]),
            )
            .unwrap();
        assert_eq!(got.scattered.direction, v(incoming[0], incoming[1], incoming[2]));
    }
}

#[test]
fn dielectric_draws_only_short_of_the_critical_angle() {
    let glass = Dielectric::new(s(1.5));
    let origin = p(0.0, 0.0, 0.0);
    let reflected = v(0.0, 0.6, 0.8);
    let refracted = v(0.0, 0.3, -0.9);
    let mut used = StdRng::seed_from_u64(11);
    let mut fresh = StdRng::seed_from_u64(11);

    let trapped = glass.scatter(&mut used, origin, s(1.3), s(0.2), reflected, refracted).unwrap();
    assert_eq!(trapped.scattered.direction, reflected);
    assert_eq!(used, fresh);

    let free = glass.scatter(&mut used, origin, s(0.4), s(0.2), reflected, refracted).unwrap();
    let draw = ray_tracing::utility::random_double(&mut fresh);
    assert_eq!(Some(free), glass.scatter_with(origin, s(0.4), s(0.2), draw, reflected, refracted));
    assert_eq!(used, fresh);
}

#[test]
fn dielectric_follows_its_reflectance() {
    let glass = Dielectric::new(s(1.5));
    let origin = p(0.0, 0.0, 0.0);
    let reflected = v(0.0, 0.6, 0.8);
    let refracted = v(0.0, 0.3, -0.9);
    let mut rng = StdRng::seed_from_u64(2024);
    let mut bounced = 0;
    for _ in 0..10_000 {
        let never = glass.scatter(&mut rng, origin, s(0.9), s(0.0), reflected, refracted).unwrap();
        assert_eq!(never.scattered.direction, refracted);
        let always = glass.scatter(&mut rng, origin, s(0.9), s(1.0), reflected, refracted).unwrap();
        assert_eq!(always.scattered.direction, reflected);
        let some = glass.scatter(&mut rng, origin, s(0.9), s(0.25), reflected, refracted).unwrap();
        assert_eq!(some.attenuation, v(1.0, 1.0, 1.0));
        if some.scattered.direction == reflected {
            bounced += 1;
        } else {
            assert_eq!(some.scattered.direction, refracted);
        }
    }
    assert!(2_200 < bounced && bounced < 2_800, "{bounced}");
}

#[test]
fn material_tells_its_kinds_apart() {
    let matte = Material::Lambertian(Lambertian::new(v(0.5, 0.5, 0.5)));
    let mirror = Material::Metal(Metal::new(v(0.5, 0.5, 0.5), s(0.0)));
    let glass = Material::Dielectric(Dielectric::new(s(1.5)));
    assert!(matches!(matte, Material::Lambertian(_)));
    assert!(matches!(mirror, Material::Metal(_)));
    assert!(matches!(glass, Material::Dielectric(_)));
    assert_ne!(matte, mirror);
}

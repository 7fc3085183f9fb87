use ray_tracing::hittable::material::lambertian::Lambertian;
use ray_tracing::hittable::{HitRecord, Scattering};
use ray_tracing::point3::Point3;
use ray_tracing::ray::Ray;
use ray_tracing::utility::scalar::Scalar;
use ray_tracing::vec3::Vec3;

fn s(x: f64) -> Scalar {
    Scalar::from_bits(x.to_bits())
}

fn v(x: f64, y: f64, z: f64) -> Vec3 {
    Vec3::new(s(x), s(y), s(z))
}

#[test]
fn ray_against_the_normal_hits_the_front() {
    assert!(HitRecord::front_face(s(-1.0)));
    assert!(HitRecord::front_face(s(-1e-300)));
    assert!(!HitRecord::front_face(s(0.0)));
    assert!(!HitRecord::front_face(s(-0.0)));
    assert!(!HitRecord::front_face(s(0.25)));
    assert!(!HitRecord::front_face(s(f64::NAN)));
}

#[test]
fn facing_normal_opposes_the_ray() {
    let outward = v(0.0, 0.0, 1.0);
    assert_eq!(HitRecord::facing_normal(s(-1.0), outward), outward);
    assert_eq!(HitRecord::facing_normal(s(1.0), outward), v(-0.0, -0.0, -1.0));
    assert_eq!(HitRecord::facing_normal(s(0.0), outward), outward.neg());
    assert_eq!(HitRecord::facing_normal(s(-0.0), outward), outward);
}

#[test]
fn facing_normal_agrees_with_doubles() {
    let outward = [0.6, -0.8, 0.0];
    for dot in [-2.0, -0.5, -0.0, 0.0, 0.5, 2.0, f64::INFINITY, f64::NEG_INFINITY] {
        let sign = -dot.signum();
        let want = v(sign * outward[0], sign * outward[1], sign * outward[2]);
        let got = HitRecord::facing_normal(s(dot), v(outward[0], outward[1], outward[2]));
        assert_eq!(got, want, "{dot}");
    }
}

#[test]
fn facing_normal_of_no_number_is_no_number() {
    let n = HitRecord::facing_normal(s(f64::NAN), v(0.0, 1.0, 0.0));
    assert!(n.x().is_nan() && n.y().is_nan() && n.z().is_nan());
}

#[test]
fn record_keeps_what_it_was_given() {
    let p = Point3::new(s(0.0), s(0.0), s(-0.5));
    let outward = v(0.0, 0.0, 1.0);
    let matte = Lambertian::new(v(0.1, 0.2, 0.5));
    let scattered = matte.scatter(p, outward, v(0.3, 0.1, 1.2));
    let rec = HitRecord::new(p, s(0.5), s(-1.0), outward, scattered);
    assert_eq!(rec.p, p);
    assert_eq!(rec.t, s(0.5));
    assert_eq!(rec.normal, outward);
    assert!(rec.front_face);
    assert_eq!(
        rec.scattered,
        Some(Scattering { attenuation: v(0.1, 0.2, 0.5), scattered: Ray::new(p, v(0.3, 0.1, 1.2)) })
    );
}

#[test]
fn record_from_inside_turns_the_normal() {
    let p = Point3::new(s(0.0), s(0.0), s(-1.5));
    let outward = v(0.0, 0.0, -1.0);
    let rec = HitRecord::new(p, s(1.5), s(1.0), outward, None);
    assert!(!rec.front_face);
    assert_eq!(rec.normal, v(-0.0, -0.0, 1.0));
    assert_eq!(rec.scattered, None);
}

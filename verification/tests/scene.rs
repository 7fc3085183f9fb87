use ray_tracing::hittable::hittable_list::{Hit, HittableList};
use ray_tracing::hittable::material::dielectric::Dielectric;
use ray_tracing::hittable::material::lambertian::Lambertian;
use ray_tracing::hittable::material::Material;
use ray_tracing::hittable::sphere::{Roots, Sphere};
use ray_tracing::hittable::Hittable;
use ray_tracing::point3::Point3;
use ray_tracing::utility::interval::Interval;
use ray_tracing::utility::scalar::Scalar;
use ray_tracing::vec3::Vec3;

fn s(x: f64) -> Scalar {
    Scalar::from_bits(x.to_bits())
}

fn ball(z: f64, radius: f64) -> Hittable {
    let mat = Material::Lambertian(Lambertian::new(Vec3::new(s(0.5), s(0.5), s(0.5))));
    Hittable::Sphere(Sphere::new(Point3::new(s(0.0), s(0.0), s(z)), s(radius), mat))
}

fn scene(n: usize) -> HittableList {
    let mut world = HittableList::new();
    for k in 0..n {
        world.add(ball(-(k as f64) - 1.0, 0.25));
    }
    world
}

fn forward() -> Interval {
    Interval::new(s(0.001), s(f64::INFINITY))
}

fn at(xs: &[Option<f64>]) -> Vec<Option<Scalar>> {
    xs.iter().map(|x| x.map(s)).collect()
}

#[test]
fn new_scene_is_empty() {
    assert_eq!(HittableList::new().len(), 0);
    assert_eq!(HittableList::default().len(), 0);
}

#[test]
fn add_appends_in_order() {
    let mut world = HittableList::new();
    world.add(ball(-1.0, 0.5));
    world.add(ball(-2.0, 0.25));
    assert_eq!(world.len(), 2);
    assert_eq!(*world.get(0), ball(-1.0, 0.5));
    assert_eq!(*world.get(1), ball(-2.0, 0.25));
}

#[test]
fn clear_empties_the_scene() {
    let mut world = scene(3);
    assert_eq!(world.len(), 3);
    world.clear();
    assert_eq!(world.len(), 0);
    world.add(ball(-1.0, 0.5));
    assert_eq!(world.len(), 1);
}

#[test]
fn scene_holds_any_material() {
    let mut world = HittableList::new();
    let glass = Material::Dielectric(Dielectric::new(s(1.5)));
    let sphere = Sphere::new(Point3::new(s(-1.0), s(0.0), s(-1.0)), s(0.5), glass);
    world.add(Hittable::Sphere(sphere));
    match world.get(0) {
        Hittable::Sphere(found) => assert_eq!(found.mat, glass),
    }
}

#[test]
fn empty_scene_shows_nothing() {
    assert_eq!(HittableList::new().hit(&Vec::new(), forward()), None);
}

#[test]
fn scene_shows_nothing_when_everything_misses() {
    let world = scene(4);
    assert_eq!(world.hit(&at(&[None, None, None, None]), forward()), None);
}

#[test]
fn scene_shows_nothing_when_every_hit_is_out_of_range() {
    let world = scene(4);
    let distances = at(&[Some(-1.0), Some(0.0005), Some(0.001), Some(f64::NAN)]);
    assert_eq!(world.hit(&distances, forward()), None);
    let short = Interval::new(s(0.001), s(2.0));
    assert_eq!(world.hit(&at(&[Some(2.0), Some(5.0), None, Some(100.0)]), short), None);
}

#[test]
fn scene_shows_the_single_hit() {
    let world = scene(4);
    for k in 0..4 {
        let mut distances = vec![None; 4];
        distances[k] = Some(s(3.5));
        assert_eq!(world.hit(&distances, forward()), Some(Hit { index: k, t: s(3.5) }));
    }
}

#[test]
fn scene_shows_the_closest_of_many() {
    let world = scene(5);
    let distances = at(&[Some(7.0), Some(3.0), None, Some(0.5), Some(12.0)]);
    assert_eq!(world.hit(&distances, forward()), Some(Hit { index: 3, t: s(0.5) }));
    let reversed = at(&[Some(12.0), Some(0.5), None, Some(3.0), Some(7.0)]);
    assert_eq!(world.hit(&reversed, forward()), Some(Hit { index: 1, t: s(0.5) }));
}

#[test]
fn scene_skips_hits_behind_the_lower_bound() {
    let world = scene(3);
    let distances = at(&[Some(0.0001), Some(4.0), Some(-2.0)]);
    assert_eq!(world.hit(&distances, forward()), Some(Hit { index: 1, t: s(4.0) }));
}

#[test]
fn coincident_spheres_show_one_of_the_two() {
    let world = scene(2);
    let seen = world.hit(&at(&[Some(0.5), Some(0.5)]), forward());
    assert!(seen == Some(Hit { index: 0, t: s(0.5) }) || seen == Some(Hit { index: 1, t: s(0.5) }));
}

#[test]
fn tie_goes_to_the_shape_added_first() {
    let world = scene(4);
    let distances = at(&[Some(9.0), Some(2.0), Some(2.0), Some(2.0)]);
    assert_eq!(world.hit(&distances, forward()), Some(Hit { index: 1, t: s(2.0) }));
}

#[test]
fn scene_matches_a_scan_with_a_shrinking_bound() {
    let all = [
        Roots::new(s(1.0), s(5.0), s(6.0)),
        Roots::new(s(1.0), s(-1.0), s(3.0)),
        Roots::new(s(-1.0), s(0.5), s(0.7)),
        Roots::new(s(0.0), s(2.0), s(2.0)),
        Roots::new(s(4.0), s(2.5), s(9.0)),
    ];
    let world = scene(all.len());
    let ray_t = forward();

    let mut want = None;
    let mut closest_so_far = ray_t.max;
    for (k, roots) in all.iter().enumerate() {
        if let Some(t) = roots.hit(Interval::new(ray_t.min, closest_so_far)) {
            closest_so_far = t;
            want = Some(Hit { index: k, t });
        }
    }

    let distances: Vec<Option<Scalar>> = all.iter().map(|roots| roots.hit(ray_t)).collect();
    assert_eq!(world.hit(&distances, ray_t), want);
    assert_eq!(want, Some(Hit { index: 3, t: s(2.0) }));
}

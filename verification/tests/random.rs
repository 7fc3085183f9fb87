use rand::rngs::StdRng;
use rand::{Rng, RngCore, SeedableRng};

use ray_tracing::utility::scalar::Scalar;
use ray_tracing::utility::{random_double, unit_of_word};
use ray_tracing::vec3::Vec3;

fn f(x: Scalar) -> f64 {
    f64::from_bits(x.to_bits())
}

/// Two to the minus 53rd.
fn step() -> f64 {
    f64::from_bits(0x3CA0_0000_0000_0000)
}

#[test]
fn unit_fractions_are_exact() {
    assert_eq!(step() * 9007199254740992.0, 1.0);
    assert_eq!(Scalar::from_unit(0).to_bits(), 0);
    assert_eq!(f(Scalar::from_unit(1)), step());
    assert_eq!(f(Scalar::from_unit(1 << 52)), 0.5);
    assert_eq!(f(Scalar::from_unit(1 << 51)), 0.25);
    assert_eq!(f(Scalar::from_unit(3 << 51)), 0.75);
    assert_eq!(f(Scalar::from_unit((1 << 53) - 1)), 1.0 - step());
    let mut k: u64 = 1;
    while k < (1 << 53) {
        assert_eq!(f(Scalar::from_unit(k)), k as f64 * step(), "{k}");
        assert_eq!(f(Scalar::from_unit(k - 1)), (k - 1) as f64 * step());
        k = k * 3 + 1;
    }
}

#[test]
fn word_becomes_a_double_by_its_high_bits() {
    assert_eq!(unit_of_word(0).to_bits(), 0);
    assert_eq!(unit_of_word(2047).to_bits(), 0);
    assert_eq!(f(unit_of_word(2048)), step());
    assert_eq!(f(unit_of_word(1 << 63)), 0.5);
    assert_eq!(f(unit_of_word(u64::MAX)), 1.0 - step());
    let mut generator = StdRng::seed_from_u64(5);
    for _ in 0..10_000 {
        let word = generator.next_u64();
        assert_eq!(f(unit_of_word(word)), (word >> 11) as f64 * step());
    }
}

#[test]
fn random_double_is_the_double_of_the_generator() {
    for seed in [0, 1, 42, u64::MAX] {
        let mut ours = StdRng::seed_from_u64(seed);
        let mut theirs = StdRng::seed_from_u64(seed);
        for _ in 0..10_000 {
            let want: f64 = theirs.random();
            assert_eq!(random_double(&mut ours).to_bits(), want.to_bits());
        }
        assert_eq!(ours, theirs);
    }
}

#[test]
fn random_double_lies_in_the_unit_interval() {
    let mut generator = StdRng::seed_from_u64(7);
    let mut sum = 0.0;
    for _ in 0..100_000 {
        let x = f(random_double(&mut generator));
        assert!((0.0..1.0).contains(&x));
        sum += x;
    }
    assert!((sum / 100_000.0 - 0.5).abs() < 0.01);
}

#[test]
fn same_seed_gives_the_same_draws() {
    let mut a = StdRng::seed_from_u64(99);
    let mut b = StdRng::seed_from_u64(99);
    let mut c = StdRng::seed_from_u64(100);
    let first: Vec<Scalar> = (0..100).map(|_| random_double(&mut a)).collect();
    let again: Vec<Scalar> = (0..100).map(|_| random_double(&mut b)).collect();
    let other: Vec<Scalar> = (0..100).map(|_| random_double(&mut c)).collect();
    assert_eq!(first, again);
    assert_ne!(first, other);
}

#[test]
fn random_vector_takes_three_draws_in_order() {
    let mut ours = StdRng::seed_from_u64(3);
    let mut theirs = StdRng::seed_from_u64(3);
    for _ in 0..1_000 {
        let v = Vec3::random(&mut ours);
        let want = [random_double(&mut theirs), random_double(&mut theirs), random_double(&mut theirs)];
        assert_eq!([v.x(), v.y(), v.z()], want);
        for c in want {
            assert!((0.0..1.0).contains(&f(c)));
        }
    }
}

#[test]
fn centered_fractions_are_exact() {
    assert_eq!(f(Scalar::centered_unit(0)), -0.5);
    assert_eq!(Scalar::centered_unit(1 << 52).to_bits(), 0);
    assert_eq!(f(Scalar::centered_unit((1 << 52) - 1)), -step());
    assert_eq!(f(Scalar::centered_unit((1 << 52) + 1)), step());
    assert_eq!(f(Scalar::centered_unit((1 << 53) - 1)), 0.5 - step());
    assert_eq!(f(Scalar::centered_unit(3 << 51)), 0.25);
    assert_eq!(f(Scalar::centered_unit(1 << 51)), -0.25);
    let mut k: u64 = 1;
    while k < (1 << 53) {
        let want = k as f64 * step() - 0.5;
        assert_eq!(Scalar::centered_unit(k).to_bits(), want.to_bits(), "{k}");
        k = k * 3 + 1;
    }
}

#[test]
fn random_offset_is_the_double_of_the_generator_less_a_half() {
    let mut ours = StdRng::seed_from_u64(17);
    let mut theirs = StdRng::seed_from_u64(17);
    for _ in 0..10_000 {
        let want = theirs.random::<f64>() - 0.5;
        let got = ray_tracing::utility::random_offset(&mut ours);
        assert_eq!(got.to_bits(), want.to_bits());
        assert!((-0.5..0.5).contains(&f(got)));
    }
}

#[test]
fn sample_square_jitters_within_a_pixel() {
    let mut ours = StdRng::seed_from_u64(23);
    let mut theirs = StdRng::seed_from_u64(23);
    for _ in 0..10_000 {
        let offset = ray_tracing::camera::Camera::sample_square(&mut ours);
        let x = theirs.random::<f64>() - 0.5;
        let y = theirs.random::<f64>() - 0.5;
        assert_eq!(offset.x().to_bits(), x.to_bits());
        assert_eq!(offset.y().to_bits(), y.to_bits());
        assert_eq!(offset.z().to_bits(), 0);
    }
}

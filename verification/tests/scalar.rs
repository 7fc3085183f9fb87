use ray_tracing::utility::scalar::Scalar;

fn s(x: f64) -> Scalar {
    Scalar::from_bits(x.to_bits())
}

fn f(x: Scalar) -> f64 {
    f64::from_bits(x.to_bits())
}

fn samples() -> Vec<f64> {
    vec![
        0.0,
        -0.0,
        1.0,
        -1.0,
        0.001,
        0.999,
        1e-8,
        -1e-8,
        1e-160,
        5e-324,
        -5e-324,
        2.2250738585072014e-308,
        0.5,
        0.7,
        2.0,
        -2.0,
        1e300,
        -1e300,
        f64::MAX,
        f64::MIN,
        f64::INFINITY,
        f64::NEG_INFINITY,
        f64::NAN,
        -f64::NAN,
        f64::from_bits(0x7FF0_0000_0000_0001),
        f64::from_bits(0xFFFF_FFFF_FFFF_FFFF),
    ]
}

#[test]
fn bit_patterns_round_trip() {
    for x in samples() {
        assert_eq!(s(x).to_bits(), x.to_bits());
        assert_eq!(Scalar::from_bits(x.to_bits()).bits, x.to_bits());
    }
}

#[test]
fn named_scalars_are_the_numbers_they_name() {
    assert_eq!(f(Scalar::zero()), 0.0);
    assert_eq!(f(Scalar::one()), 1.0);
    assert_eq!(f(Scalar::infinity()), f64::INFINITY);
    assert_eq!(f(Scalar::neg_infinity()), f64::NEG_INFINITY);
    assert_eq!(Scalar::zero().to_bits(), 0);
}

#[test]
fn is_nan_agrees_with_doubles() {
    for x in samples() {
        assert_eq!(s(x).is_nan(), x.is_nan(), "{x}");
    }
}

#[test]
fn sign_agrees_with_doubles() {
    for x in samples() {
        assert_eq!(s(x).is_sign_negative(), x.is_sign_negative(), "{x}");
    }
    assert!(s(-0.0).is_sign_negative());
    assert!(!s(0.0).is_sign_negative());
}

#[test]
fn lt_agrees_with_doubles() {
    for a in samples() {
        for b in samples() {
            assert_eq!(s(a).lt(s(b)), a < b, "{a} < {b}");
        }
    }
}

#[test]
fn le_agrees_with_doubles() {
    for a in samples() {
        for b in samples() {
            assert_eq!(s(a).le(s(b)), a <= b, "{a} <= {b}");
        }
    }
}

#[test]
fn same_agrees_with_doubles() {
    for a in samples() {
        for b in samples() {
            assert_eq!(s(a).same(s(b)), a == b, "{a} == {b}");
        }
    }
}

#[test]
fn zeros_are_the_same_number_with_different_patterns() {
    assert!(s(0.0).same(s(-0.0)));
    assert!(!s(0.0).lt(s(-0.0)));
    assert!(!s(-0.0).lt(s(0.0)));
    assert_ne!(s(0.0), s(-0.0));
}

#[test]
fn nan_compares_with_nothing() {
    let nan = s(f64::NAN);
    assert!(!nan.lt(nan));
    assert!(!nan.le(nan));
    assert!(!nan.same(nan));
    assert!(!nan.lt(Scalar::infinity()));
    assert!(!Scalar::neg_infinity().lt(nan));
}

#[test]
fn neg_agrees_with_doubles() {
    for x in samples() {
        assert_eq!(s(x).neg().to_bits(), (-x).to_bits(), "{x}");
        assert_eq!(s(x).neg().neg(), s(x));
    }
}

#[test]
fn abs_agrees_with_doubles() {
    for x in samples() {
        assert_eq!(s(x).abs().to_bits(), x.abs().to_bits(), "{x}");
    }
}

#[test]
fn max_agrees_with_doubles() {
    for a in samples() {
        for b in samples() {
            let got = f(s(a).max(s(b)));
            let want = a.max(b);
            assert!(got == want || (got.is_nan() && want.is_nan()), "max({a}, {b})");
        }
    }
}

#[test]
fn min_agrees_with_doubles() {
    for a in samples() {
        for b in samples() {
            let got = f(s(a).min(s(b)));
            let want = a.min(b);
            assert!(got == want || (got.is_nan() && want.is_nan()), "min({a}, {b})");
        }
    }
}

#[test]
fn max_ignores_nan() {
    assert_eq!(s(f64::NAN).max(s(0.0)), s(0.0));
    assert_eq!(s(2.5).max(s(f64::NAN)), s(2.5));
    assert_eq!(s(-3.0).max(s(0.0)), s(0.0));
    assert_eq!(s(3.0).max(s(0.0)), s(3.0));
}

#[test]
fn clamp_agrees_with_doubles() {
    let bounds = [(0.0, 0.999), (-1.0, 1.0), (0.5, 0.5), (f64::NEG_INFINITY, f64::INFINITY)];
    for (lo, hi) in bounds {
        for x in samples() {
            let got = s(x).clamp(s(lo), s(hi));
            let want = x.clamp(lo, hi);
            assert!(
                got.to_bits() == want.to_bits() || (got.is_nan() && want.is_nan()),
                "clamp({x}, {lo}, {hi})"
            );
        }
    }
}

#[test]
fn clamp_moves_to_the_nearer_bound() {
    assert_eq!(s(-0.25).clamp(s(0.0), s(0.999)), s(0.0));
    assert_eq!(s(1.5).clamp(s(0.0), s(0.999)), s(0.999));
    assert_eq!(s(0.25).clamp(s(0.0), s(0.999)), s(0.25));
    assert!(s(f64::NAN).clamp(s(0.0), s(0.999)).is_nan());
}

#[test]
fn order_is_transitive_on_samples() {
    let xs = samples();
    for a in &xs {
        for b in &xs {
            for c in &xs {
                if s(*a).lt(s(*b)) && s(*b).lt(s(*c)) {
                    assert!(s(*a).lt(s(*c)));
                }
            }
        }
    }
}

/// Bit patterns of every sort: each field of a double is as often all
/// zeros or all ones as it is anything else.
fn patterns(count: usize) -> Vec<f64> {
    let mut state: u64 = 0x9E37_79B9_7F4A_7C15;
    let mut next = move || {
        state ^= state << 13;
        state ^= state >> 7;
        state ^= state << 17;
        state
    };
    let mut all = Vec::with_capacity(count);
    for _ in 0..count {
        let sign = next() & 0x8000_0000_0000_0000;
        let exponent = match next() % 4 {
            0 => 0,
            1 => 0x7FF0_0000_0000_0000,
            2 => 0x3FF0_0000_0000_0000,
            _ => next() & 0x7FF0_0000_0000_0000,
        };
        let fraction = match next() % 4 {
            0 => 0,
            1 => 0x000F_FFFF_FFFF_FFFF,
            _ => next() & 0x000F_FFFF_FFFF_FFFF,
        };
        all.push(f64::from_bits(sign | exponent | fraction));
    }
    all
}

#[test]
fn random_patterns_compare_as_doubles() {
    let xs = patterns(2_000);
    let ys = patterns(4_000);
    for (k, a) in xs.iter().enumerate() {
        for b in &ys[k..k + 200] {
            assert_eq!(s(*a).lt(s(*b)), a < b, "{a:e} < {b:e}");
            assert_eq!(s(*a).le(s(*b)), a <= b, "{a:e} <= {b:e}");
            assert_eq!(s(*a).same(s(*b)), a == b, "{a:e} == {b:e}");
            let max = f(s(*a).max(s(*b)));
            let min = f(s(*a).min(s(*b)));
            assert!(max == a.max(*b) || (max.is_nan() && a.max(*b).is_nan()));
            assert!(min == a.min(*b) || (min.is_nan() && a.min(*b).is_nan()));
        }
        assert_eq!(s(*a).is_nan(), a.is_nan());
        assert_eq!(s(*a).is_sign_negative(), a.is_sign_negative());
        assert_eq!(s(*a).neg().to_bits(), (-a).to_bits());
        assert_eq!(s(*a).abs().to_bits(), a.abs().to_bits());
    }
}

#[test]
fn random_patterns_clamp_as_doubles() {
    let xs = patterns(3_000);
    for window in xs.windows(3) {
        let (lo, hi, x) = (window[0], window[1], window[2]);
        if lo <= hi {
            let got = s(x).clamp(s(lo), s(hi));
            let want = x.clamp(lo, hi);
            assert!(got.to_bits() == want.to_bits() || (got.is_nan() && want.is_nan()));
        }
    }
}

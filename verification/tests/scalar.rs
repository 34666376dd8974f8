use pathtracer::scalar::{Scalar, INFINITY_BITS, ONE_BITS, SIGN_BIT};
use pathtracer::utils::{in_unit_ball, random_in_hemisphere};
use pathtracer::vec3::Vec3;

fn s(x: f64) -> Scalar {
    Scalar::from_bits(x.to_bits())
}

fn f(x: Scalar) -> f64 {
    f64::from_bits(x.to_bits())
}

fn v(x: f64, y: f64, z: f64) -> Vec3 {
    Vec3::new(s(x), s(y), s(z))
}

fn samples() -> Vec<f64> {
    let mut out = vec![
        0.0,
        -0.0,
        1.0,
        -1.0,
        0.001,
        -0.001,
        0.5,
        0.999,
        0.9990000000000001,
        1.0000000000000002,
        2.0,
        -2.0,
        255.0,
        1e300,
        -1e300,
        f64::MAX,
        f64::MIN,
        f64::MIN_POSITIVE,
        -f64::MIN_POSITIVE,
        f64::from_bits(1),
        f64::from_bits(SIGN_BIT | 1),
        f64::INFINITY,
        f64::NEG_INFINITY,
        f64::NAN,
        -f64::NAN,
        f64::from_bits(0x7ff0_0000_0000_0001),
        f64::from_bits(0xfff0_0000_0000_0001),
        f64::from_bits(0x7fff_ffff_ffff_ffff),
    ];
    // A fixed pseudo-random walk over all bit patterns.
    let mut state: u64 = 0x9e37_79b9_7f4a_7c15;
    for _ in 0..200 {
        state ^= state << 13;
        state ^= state >> 7;
        state ^= state << 17;
        out.push(f64::from_bits(state));
    }
    out
}

#[test]
fn constants_are_the_values_they_name() {
    assert_eq!(f(Scalar::zero()), 0.0);
    assert_eq!(Scalar::zero().to_bits(), 0);
    assert_eq!(f(Scalar::one()), 1.0);
    assert_eq!(ONE_BITS, 1.0f64.to_bits());
    assert_eq!(f(Scalar::infinity()), f64::INFINITY);
    assert_eq!(INFINITY_BITS, f64::INFINITY.to_bits());
    assert_eq!(SIGN_BIT, (-0.0f64).to_bits());
}

#[test]
fn from_bits_and_to_bits_round_trip() {
    for x in samples() {
        assert_eq!(Scalar::from_bits(x.to_bits()).to_bits(), x.to_bits());
    }
}

#[test]
fn less_agrees_with_the_hardware_on_every_pair() {
    let xs = samples();
    for &a in &xs {
        for &b in &xs {
            assert_eq!(s(a).less(s(b)), a < b, "{:?} < {:?}", a, b);
        }
    }
}

#[test]
fn less_orders_the_zeros_as_equal() {
    assert!(!s(0.0).less(s(-0.0)));
    assert!(!s(-0.0).less(s(0.0)));
    assert!(s(-0.0).less(s(f64::from_bits(1))));
    assert!(s(f64::from_bits(SIGN_BIT | 1)).less(s(0.0)));
}

#[test]
fn less_is_false_with_a_nan_on_either_side() {
    for x in samples() {
        assert!(!s(f64::NAN).less(s(x)));
        assert!(!s(x).less(s(f64::NAN)));
    }
}

#[test]
fn nan_agrees_with_the_hardware() {
    for x in samples() {
        assert_eq!(s(x).nan(), x.is_nan(), "{:?}", x);
    }
}

#[test]
fn neg_agrees_with_the_hardware() {
    for x in samples() {
        assert_eq!(s(x).neg().to_bits(), (-x).to_bits(), "{:?}", x);
        assert_eq!(s(x).neg().neg(), s(x));
    }
    assert_eq!(f(s(0.5).neg()), -0.5);
}

#[test]
fn negation_reverses_the_order() {
    let xs = samples();
    for &a in &xs {
        for &b in &xs {
            assert_eq!(s(a).neg().less(s(b).neg()), s(b).less(s(a)));
        }
    }
}

#[test]
fn order_is_transitive_on_samples() {
    let xs = samples();
    for &a in xs.iter().take(40) {
        for &b in xs.iter().take(40) {
            for &c in xs.iter().take(40) {
                if s(a).less(s(b)) && s(b).less(s(c)) {
                    assert!(s(a).less(s(c)));
                }
            }
        }
    }
}

#[test]
fn vec3_new_keeps_the_components() {
    let a = v(1.0, -2.0, 3.5);
    assert_eq!(f(a.x), 1.0);
    assert_eq!(f(a.y), -2.0);
    assert_eq!(f(a.z), 3.5);
}

#[test]
fn vec3_neg_flips_every_component() {
    let a = v(1.0, -2.0, 0.0).neg();
    assert_eq!(f(a.x), -1.0);
    assert_eq!(f(a.y), 2.0);
    assert_eq!(a.z.to_bits(), (-0.0f64).to_bits());
    assert_eq!(a.neg(), v(1.0, -2.0, 0.0));
}

#[test]
fn unit_ball_accepts_below_one_only() {
    assert!(in_unit_ball(s(0.0)));
    assert!(in_unit_ball(s(0.75)));
    assert!(in_unit_ball(s(0.9999999999999999)));
    assert!(!in_unit_ball(s(1.0)));
    assert!(!in_unit_ball(s(3.0)));
    assert!(!in_unit_ball(s(f64::NAN)));
}

#[test]
fn hemisphere_keeps_a_draw_on_the_normals_side() {
    let draw = v(0.25, 0.5, -0.125);
    assert_eq!(random_in_hemisphere(draw, s(0.3)), draw);
}

#[test]
fn hemisphere_mirrors_a_draw_on_the_far_side() {
    let draw = v(0.25, 0.5, -0.125);
    assert_eq!(random_in_hemisphere(draw, s(-0.3)), v(-0.25, -0.5, 0.125));
    // A draw in the surface's plane is mirrored as well.
    assert_eq!(random_in_hemisphere(draw, s(0.0)), v(-0.25, -0.5, 0.125));
}

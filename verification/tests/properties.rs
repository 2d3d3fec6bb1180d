use float_cmp::ApproxEqUlps;
use tuple_algebra::projectile::Environment;
use tuple_algebra::projectile::Projectile;
use tuple_algebra::projectile::tick;
use tuple_algebra::tuple::EPSILON;
use tuple_algebra::tuple::SCALE;
use tuple_algebra::tuple::Tuple;

/// A real number as a raw fixed-point coordinate.
fn fx(v: f64) -> i64 {
    (v * 1_000_000.0).round() as i64
}

#[test]
fn constructors_discriminate_points_from_vectors() {
    let p = Tuple::new_point(fx(7.25), fx(-3.5), fx(0.0));
    assert!(p.is_point());
    assert!(!p.is_vector());

    let v = Tuple::new_vector(fx(7.25), fx(-3.5), fx(0.0));
    assert!(!v.is_point());
    assert!(v.is_vector());
}

#[test]
fn any_w_other_than_one_counts_as_a_vector() {
    let odd = Tuple::new(fx(1.0), fx(2.0), fx(3.0), fx(0.5));
    assert!(!odd.is_point());
    assert!(odd.is_vector());
}

#[test]
fn addition_commutes() {
    let u = Tuple::new(fx(3.0), fx(-2.0), fx(5.0), fx(1.0));
    let v = Tuple::new(fx(-2.75), fx(3.5), fx(1.25), fx(0.0));
    let uv = u.add(&v);
    let vu = v.add(&u);
    assert_eq!(uv.x, vu.x);
    assert_eq!(uv.y, vu.y);
    assert_eq!(uv.z, vu.z);
    assert_eq!(uv.w, vu.w);
}

#[test]
fn a_vector_plus_its_negation_is_the_zero_vector() {
    let v = Tuple::new_vector(fx(1.5), fx(-2.25), fx(3.0));
    let s = v.add(&v.negate());
    assert_eq!(s.x, 0);
    assert_eq!(s.y, 0);
    assert_eq!(s.z, 0);
    assert_eq!(s.w, 0);
    assert_eq!(s, Tuple::new_vector(0, 0, 0));
}

#[test]
fn scaling_scales_the_magnitude_linearly() {
    let v = Tuple::new_vector(fx(1.0), fx(2.0), fx(3.0));
    let k: i64 = 3;
    let scaled = v.mult(k * SCALE);
    let expected = k * v.magnitude();
    assert!((scaled.magnitude() - expected).abs() < k);
    let negated = v.mult(-k * SCALE);
    assert!((negated.magnitude() - expected).abs() < k);
}

#[test]
fn scaling_by_a_fraction_scales_the_magnitude_too() {
    let v = Tuple::new_vector(fx(1.0), fx(2.0), fx(3.0));
    let s = fx(1.0 / 3.0);
    let scaled = v.mult(s);
    // SCALE * |scaled| tracks s * |v| within the proven rounding bounds
    let lhs = (SCALE as i128) * (scaled.magnitude() as i128);
    let rhs = (s as i128) * (v.magnitude() as i128);
    assert!(lhs <= rhs + (s as i128) - 1);
    assert!(rhs < lhs + 3 * (SCALE as i128));
}

#[test]
fn normalization_yields_magnitude_one() {
    let samples = [
        Tuple::new_vector(fx(1.0), fx(2.0), fx(3.0)),
        Tuple::new_vector(fx(4.0), fx(0.0), fx(0.0)),
        Tuple::new_vector(fx(-5.0), fx(7.0), fx(2.5)),
        Tuple::new_vector(fx(0.0), fx(0.0), fx(123.456)),
    ];
    for v in samples.iter() {
        let m = v.normalize().magnitude();
        assert!((m - SCALE).abs() <= 5);
        assert!((m - SCALE).abs() <= EPSILON);
    }
}

#[test]
fn normalizing_a_tiny_vector_never_lands_short() {
    // a vector far below one raw-unit precision still normalizes to at
    // least unit length, though it can overshoot it
    let tiny = Tuple::new_vector(1, 1, 1);
    let m = tiny.normalize().magnitude();
    assert!(m >= SCALE - 5);
    assert!(m > SCALE + EPSILON);
}

#[test]
fn cross_product_anticommutes() {
    let a = Tuple::new_vector(fx(1.0), fx(2.0), fx(3.0));
    let b = Tuple::new_vector(fx(2.0), fx(3.0), fx(4.0));
    let ab = a.cross_product(&b);
    let ba_neg = b.cross_product(&a).negate();
    assert_eq!(ab.x, ba_neg.x);
    assert_eq!(ab.y, ba_neg.y);
    assert_eq!(ab.z, ba_neg.z);
    assert_eq!(ab.w, ba_neg.w);
}

#[test]
fn equality_holds_at_the_tolerance_and_fails_just_beyond() {
    let a = Tuple::new_vector(fx(1.0), fx(1.0), fx(1.0));
    let close = Tuple::new(a.x + EPSILON, a.y - EPSILON, a.z, a.w);
    assert!(a.approx_eq(&close));
    assert_eq!(a, close);
    let apart = Tuple::new(a.x + EPSILON + 1, a.y, a.z, a.w);
    assert!(!a.approx_eq(&apart));
    assert!(a != apart);
}

#[test]
fn adding_two_points_leaves_a_degenerate_w() {
    let p1 = Tuple::new_point(fx(1.0), fx(2.0), fx(3.0));
    let p2 = Tuple::new_point(fx(4.0), fx(5.0), fx(6.0));
    let s = p1.add(&p2);
    assert_eq!(s.w, 2 * SCALE);
    assert!(!s.is_point());
    assert!(s.is_vector());
}

#[test]
fn magnitude_ignores_direction() {
    let v = Tuple::new_vector(fx(1.0), fx(2.0), fx(3.0));
    assert_eq!(v.magnitude(), v.negate().magnitude());
}

#[test]
fn dividing_by_zero_magnitude_never_happens_on_nonzero_input() {
    let tiny = Tuple::new_vector(1, 0, 0);
    // the smallest representable nonzero vector still normalizes
    let n = tiny.normalize();
    assert_eq!(n.x, SCALE);
    assert_eq!(n.y, 0);
    assert_eq!(n.z, 0);
}

#[test]
fn scaling_and_division_round_toward_zero() {
    // one raw unit halved truncates to zero from either side
    let v = Tuple::new(1, -1, 0, 0);
    let halved = v.mult(fx(0.5));
    assert_eq!(halved.x, 0);
    assert_eq!(halved.y, 0);
    let divided = v.div(fx(2.0));
    assert_eq!(divided.x, 0);
    assert_eq!(divided.y, 0);
}

#[test]
fn dividing_by_a_negative_scalar_flips_signs() {
    let a = Tuple::new(fx(1.0), fx(-2.0), fx(3.0), fx(-4.0));
    assert_eq!(a.div(fx(-2.0)), Tuple::new(fx(-0.5), fx(1.0), fx(-1.5), fx(2.0)));
}

#[test]
fn one_tick_advances_position_and_bends_velocity() {
    let env = Environment {
        gravity: Tuple::new_vector(fx(0.0), fx(-0.1), fx(0.0)),
        wind: Tuple::new_vector(fx(0.01), fx(0.0), fx(0.0)),
    };
    let mut p = Projectile {
        position: Tuple::new_point(fx(0.0), fx(1.0), fx(0.0)),
        velocity: Tuple::new_vector(fx(1.0), fx(1.0), fx(0.0)),
    };
    tick(&env, &mut p);
    assert_eq!(p.position, Tuple::new_point(fx(1.0), fx(2.0), fx(0.0)));
    assert_eq!(p.velocity, Tuple::new_vector(fx(1.01), fx(0.9), fx(0.0)));
}

#[test]
fn a_tick_below_the_floor_flips_the_fall_upward() {
    let env = Environment {
        gravity: Tuple::new_vector(fx(0.0), fx(-0.1), fx(0.0)),
        wind: Tuple::new_vector(fx(0.01), fx(0.0), fx(0.0)),
    };
    let mut p = Projectile {
        position: Tuple::new_point(fx(10.0), fx(-600.5), fx(0.0)),
        velocity: Tuple::new_vector(fx(2.0), fx(-3.0), fx(0.0)),
    };
    tick(&env, &mut p);
    // the velocity bounced to (2.0, 3.0, 0.0) before either update
    assert_eq!(p.position, Tuple::new_point(fx(12.0), fx(-597.5), fx(0.0)));
    assert_eq!(p.velocity, Tuple::new_vector(fx(2.01), fx(2.9), fx(0.0)));
}

#[test]
fn tolerance_agrees_with_ulps_comparison_on_the_normalize_scenario() {
    // the floating-point comparison the approximate equality stands in for
    let exact = 1.0_f64 / 14.0_f64.sqrt();
    assert!(exact.approx_eq_ulps(&0.267261241_f64, 100000000));
    // and the fixed-point tolerance accepts the same written value
    let v = Tuple::new_vector(fx(1.0), fx(2.0), fx(3.0)).normalize();
    let written = Tuple::new_vector(fx(0.267261241), fx(0.534522483), fx(0.801783725));
    assert!(v.approx_eq(&written));
}

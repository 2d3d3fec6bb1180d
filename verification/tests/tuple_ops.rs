use tuple_algebra::tuple::Tuple;
use tuple_algebra::tuple::EPSILON;

/// A real number as a raw fixed-point coordinate.
fn fx(v: f64) -> i64 {
    (v * 1_000_000.0).round() as i64
}

#[test]
fn a_tuple_with_w_1_0_is_a_point() {
    let a = Tuple::new(fx(4.3), fx(-4.2), fx(3.1), fx(1.0));

    assert_eq!(a.x, fx(4.3));
    assert_eq!(a.y, fx(-4.2));
    assert_eq!(a.z, fx(3.1));
    assert!(a.is_point());
    assert!(!a.is_vector());
}

#[test]
fn a_tuple_with_w_0_is_a_vector() {
    let a = Tuple::new(fx(4.3), fx(-4.2), fx(3.1), fx(0.0));

    assert_eq!(a.x, fx(4.3));
    assert_eq!(a.y, fx(-4.2));
    assert_eq!(a.z, fx(3.1));
    assert!(!a.is_point());
    assert!(a.is_vector());
}

#[test]
fn adding_two_tuples() {
    let a1 = Tuple::new(fx(3.0), fx(-2.0), fx(5.0), fx(1.0));
    let a2 = Tuple::new(fx(-2.0), fx(3.0), fx(1.0), fx(0.0));

    assert_eq!(a1.add(&a2), Tuple::new_point(fx(1.0), fx(1.0), fx(6.0)))
}

#[test]
fn subtracting_two_points() {
    let a1 = Tuple::new_point(fx(3.0), fx(2.0), fx(1.0));
    let a2 = Tuple::new_point(fx(5.0), fx(6.0), fx(7.0));
    assert_eq!(a1.sub(&a2), Tuple::new_vector(fx(-2.0), fx(-4.0), fx(-6.0)))
}

#[test]
fn subtracting_vector_from_a_point() {
    let p = Tuple::new_point(fx(3.0), fx(2.0), fx(1.0));
    let v = Tuple::new_vector(fx(5.0), fx(6.0), fx(7.0));

    assert_eq!(p.sub(&v), Tuple::new_point(fx(-2.0), fx(-4.0), fx(-6.0)))
}

#[test]
fn subtracting_two_vectors() {
    let v1 = Tuple::new_vector(fx(3.0), fx(2.0), fx(1.0));
    let v2 = Tuple::new_vector(fx(5.0), fx(6.0), fx(7.0));

    assert_eq!(v1.sub(&v2), Tuple::new_vector(fx(-2.0), fx(-4.0), fx(-6.0)))
}

#[test]
fn subtracting_a_vector_from_the_zero_vector() {
    let zero = Tuple::new_vector(fx(0.0), fx(0.0), fx(0.0));
    let v = Tuple::new_vector(fx(1.0), fx(-2.0), fx(3.0));

    assert_eq!(zero.sub(&v), Tuple::new_vector(fx(-1.0), fx(2.0), fx(-3.0)));
}

#[test]
fn negate_vector() {
    let v = Tuple::new(fx(1.0), fx(-2.0), fx(3.0), fx(-4.0));

    assert_eq!(v.negate(), Tuple::new(fx(-1.0), fx(2.0), fx(-3.0), fx(4.0)))
}

#[test]
fn multiplying_a_vector_by_a_scalar() {
    let a = Tuple::new(fx(1.0), fx(-2.0), fx(3.0), fx(-4.0));

    assert_eq!(a.mult(fx(3.5)), Tuple::new(fx(3.5), fx(-7.0), fx(10.5), fx(-14.0)))
}

#[test]
fn multiplying_a_vector_by_a_fraction() {
    let a = Tuple::new(fx(1.0), fx(-2.0), fx(3.0), fx(-4.0));

    assert_eq!(a.mult(fx(0.5)), Tuple::new(fx(0.5), fx(-1.0), fx(1.5), fx(-2.0)))
}

#[test]
fn dividing_a_tuple_by_a_scalar() {
    let a = Tuple::new(fx(1.0), fx(-2.0), fx(3.0), fx(-4.0));

    assert_eq!(a.div(fx(2.0)), Tuple::new(fx(0.5), fx(-1.0), fx(1.5), fx(-2.0)))
}

#[test]
fn computing_the_magnitude_of_vector_1_0_0() {
    let v = Tuple::new_vector(fx(1.0), fx(0.0), fx(0.0));

    assert_eq!(v.magnitude(), fx(1.0))
}

#[test]
fn normalizing_a_vector() {
    let v = Tuple::new_vector(fx(4.0), fx(0.0), fx(0.0));

    assert_eq!(v.normalize(), Tuple::new_vector(fx(1.0), fx(0.0), fx(0.0)))
}

#[test]
fn normalizing_another_vector() {
    let v = Tuple::new_vector(fx(1.0), fx(2.0), fx(3.0));

    assert_eq!(
        v.normalize(),
        Tuple::new_vector(fx(0.267261241), fx(0.534522483), fx(0.801783725))
    )
}

#[test]
fn magnitude_of_a_normalized_vector_is_1() {
    let v = Tuple::new_vector(fx(1.0), fx(2.0), fx(3.0));

    assert!((v.normalize().magnitude() - fx(1.0)).abs() <= EPSILON)
}

#[test]
fn dot_product_of_two_tuples() {
    let a = Tuple::new_vector(fx(1.0), fx(2.0), fx(3.0));
    let b = Tuple::new_vector(fx(2.0), fx(3.0), fx(4.0));

    assert_eq!(a.dot_product(&b), fx(20.0))
}

#[test]
fn cross_product_of_two_vectors() {
    let a = Tuple::new_vector(fx(1.0), fx(2.0), fx(3.0));
    let b = Tuple::new_vector(fx(2.0), fx(3.0), fx(4.0));

    assert_eq!(a.cross_product(&b), Tuple::new_vector(fx(-1.0), fx(2.0), fx(-1.0)));
    assert_eq!(b.cross_product(&a), Tuple::new_vector(fx(1.0), fx(-2.0), fx(1.0)));
}

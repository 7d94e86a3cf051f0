use cyclone::fixed::{from_int, from_ratio, real_div, real_mul, real_sqrt, Real, ONE};
use cyclone::vector::Vector3;

fn v(x: i64, y: i64, z: i64) -> Vector3 {
    Vector3::new(from_int(x), from_int(y), from_int(z))
}

#[test]
fn test_invert() {
    let mut v1 = v(1, 2, 3);
    v1.invert();
    assert_eq!(v1, v(-1, -2, -3));

    let mut v2 = Vector3::origin();
    v2.invert();
    assert_eq!(v2, Vector3::origin());
}

#[test]
fn test_magnitue() {
    let v1 = v(3, 4, 2);
    let sm1: Real = from_int(29);
    assert_eq!(v1.square_magnitude(), sm1);
    assert_eq!(v1.magnitude(), real_sqrt(sm1));
}

#[test]
fn test_normalize() {
    let mut v1 = v(3, 4, 2);
    let sm1: Real = from_int(29);
    let m1: Real = real_sqrt(sm1);
    let d1: Real = real_div(ONE, m1);
    v1.normalize();
    assert_eq!(
        v1,
        Vector3::new(real_mul(from_int(3), d1), real_mul(from_int(4), d1), real_mul(from_int(2), d1))
    );
}

#[test]
fn invert_twice_gives_back_the_vector() {
    let original = Vector3::new(5, -7, ONE * 3 + 1);
    let mut w = original;
    w.invert();
    assert_eq!(w, Vector3::new(-5, 7, -(ONE * 3 + 1)));
    w.invert();
    assert_eq!(w, original);
}

#[test]
fn magnitude_is_never_negative() {
    assert_eq!(Vector3::origin().magnitude(), 0);
    assert!(v(-3, -4, -12).magnitude() >= 0);
    assert_eq!(v(-3, -4, -12).magnitude(), from_int(13));
    assert_eq!(Vector3::new(1, 0, 0).magnitude(), 0);
    assert_eq!(Vector3::new(2048, 0, 0).magnitude(), 2048);
}

#[test]
fn magnitude_of_three_four_zero_is_five() {
    assert_eq!(v(3, 4, 0).magnitude(), from_int(5));
    assert_eq!(v(3, 4, 0).square_magnitude(), from_int(25));
}

#[test]
fn normalizing_the_origin_keeps_it() {
    let mut o = Vector3::origin();
    o.normalize();
    assert_eq!(o, Vector3::origin());
}

#[test]
fn normalized_vectors_have_unit_length() {
    let samples = [v(3, 4, 2), v(1, 1, 1), v(-5, 12, 0), Vector3::new(7 * ONE / 3, -3, 2 * ONE), v(0, 0, -9)];
    for s in samples.iter() {
        let mut n = *s;
        n.normalize();
        let m = n.magnitude();
        assert!((m - ONE).abs() <= 16, "length {} for {:?}", m, s);
    }
}

#[test]
fn normalizing_an_axis_is_exact() {
    let mut a = v(0, -4, 0);
    a.normalize();
    assert_eq!(a, v(0, -1, 0));
}

#[test]
fn cross_product_is_anticommutative() {
    let pairs = [
        (v(1, 2, 3), v(4, 5, 6)),
        (v(-2, 0, 7), v(3, -1, 1)),
        (Vector3::new(13, -17, 19), Vector3::new(ONE / 3, 5, -ONE)),
    ];
    for (a, b) in pairs.iter() {
        let mut neg = b.vector_product(a);
        neg.invert();
        assert_eq!(a.vector_product(b), neg);
    }
    assert_eq!(v(1, 2, 3).vector_product(&v(4, 5, 6)), v(-3, 6, -3));
}

#[test]
fn cross_assign_matches_cross() {
    let a = v(1, 2, 3);
    let b = v(4, 5, 6);
    let mut c = a;
    c.vector_product_assign(&b);
    assert_eq!(c, a.vector_product(&b));
}

#[test]
fn scalar_product_adds_the_third_axis() {
    // 1*4 + 2*5 + 3 + 6: the third axis is added, not multiplied.
    assert_eq!(v(1, 2, 3).scalar_product(&v(4, 5, 6)), from_int(23));
    assert_eq!(v(0, 0, 2).scalar_product(&v(0, 0, 2)), from_int(4));
    assert_eq!(v(0, 0, 3).scalar_product(&v(0, 0, 3)), from_int(6));
}

#[test]
fn clear_zeroes_every_component() {
    let mut a = v(1, -2, 3);
    a.clear();
    assert_eq!(a, Vector3::origin());
}

#[test]
fn add_scaled_vector_adds_a_multiple() {
    let mut a = v(1, 2, 3);
    a.add_scaled_vector(&v(2, -4, 6), from_ratio(1, 2));
    assert_eq!(a, v(2, 0, 6));
}

#[test]
fn component_products() {
    let a = v(1, -2, 3);
    let b = v(4, 5, -6);
    assert_eq!(a.component_product(&b), v(4, -10, -18));
    let mut c = a;
    c.component_product_update(&b);
    assert_eq!(c, v(4, -10, -18));
}

#[test]
fn sums_differences_and_scaling() {
    let a = v(1, 2, 3);
    let b = v(10, 20, 30);
    assert_eq!(a.add(&b), v(11, 22, 33));
    assert_eq!(b.sub(&a), v(9, 18, 27));
    assert_eq!(a.mul(from_int(3)), v(3, 6, 9));
    let mut c = a;
    c.add_assign(&b);
    assert_eq!(c, v(11, 22, 33));
    c.sub_assign(&b);
    assert_eq!(c, a);
    c.mul_assign(from_ratio(-1, 2));
    assert_eq!(c, Vector3::new(-ONE / 2, -ONE, -ONE - ONE / 2));
}

#[test]
fn orthonormal_basis_from_two_axes() {
    let mut a = v(1, 0, 0);
    let mut b = v(0, 1, 0);
    let mut c = Vector3::origin();
    Vector3::make_orthonormal_basis(&mut a, &mut b, &mut c);
    assert_eq!(a, v(1, 0, 0));
    assert_eq!(b, v(0, 1, 0));
    assert_eq!(c, v(0, 0, 1));
    assert_eq!(a.magnitude(), ONE);
    assert_eq!(b.magnitude(), ONE);
    assert_eq!(c.magnitude(), ONE);
    let dot = |p: &Vector3, q: &Vector3| real_mul(p.x, q.x) + real_mul(p.y, q.y) + real_mul(p.z, q.z);
    assert_eq!(dot(&c, &a), 0);
    assert_eq!(dot(&c, &b), 0);
    assert_eq!(dot(&a, &b), 0);
    // right-handed: a x b == c
    assert_eq!(a.vector_product(&b), c);
}

#[test]
fn orthonormal_basis_straightens_b() {
    let mut a = v(2, 0, 0);
    let mut b = v(1, 1, 0);
    let mut c = Vector3::origin();
    Vector3::make_orthonormal_basis(&mut a, &mut b, &mut c);
    assert_eq!(a, v(1, 0, 0));
    assert_eq!(c, v(0, 0, 1));
    assert_eq!(b, v(0, 1, 0));
}

#[test]
fn orthonormal_basis_with_parallel_inputs_keeps_b() {
    let mut a = v(3, 0, 0);
    let mut b = v(5, 0, 0);
    let mut c = v(9, 9, 9);
    Vector3::make_orthonormal_basis(&mut a, &mut b, &mut c);
    // 1/3 rounds down, so a third of three falls one unit short of 1.
    assert_eq!(a, Vector3::new(ONE - 1, 0, 0));
    assert_eq!(b, v(5, 0, 0));
    assert_eq!(c, Vector3::origin());
}

#[test]
fn square_magnitude_orders_magnitudes() {
    let tiny = Vector3::new(1, 0, 0);
    assert_eq!(tiny.square_magnitude(), 0);
    assert_eq!(tiny.magnitude(), 0);
    let pairs = [(v(1, 2, 2), v(2, 2, 1)), (v(1, 1, 1), v(0, 0, 2)), (Vector3::new(ONE + 5, 0, 0), v(1, 0, 0))];
    for (a, b) in pairs.iter() {
        assert_eq!(a.square_magnitude() <= b.square_magnitude(), a.magnitude() <= b.magnitude());
        assert_eq!(a.magnitude(), real_sqrt(a.square_magnitude()));
    }
}

use viper::ec::{Point, CURVE_A, CURVE_B, CURVE_N, CURVE_P, EC};

#[test]
fn point_plus_its_negation_is_infinity() {
    let g = Point::default();
    assert_eq!(g.add(&g.neg()), Point::infinity());
    let q = g.mul(12345);
    assert_eq!(q.add(&q.neg()), Point::infinity());
    assert_eq!(Point::infinity().add(&Point::infinity().neg()), Point::infinity());
}

#[test]
fn infinity_is_the_identity() {
    let g = Point::default();
    assert_eq!(g.add(&Point::infinity()), g);
    assert_eq!(Point::infinity().add(&g), g);
    let q = g.mul(777);
    assert_eq!(q.add(&Point::infinity()), q);
}

#[test]
fn doubling_commutes_with_scalar_multiplication() {
    let g = Point::default();
    for k in [1i64, 2, 3, 7, 100, 65537] {
        assert_eq!(g.mul(k).double(), g.mul(2 * k));
    }
    assert_eq!(g.mul(2), g.double());
    assert_eq!(g.add(&g), g.double());
}

#[test]
fn scalar_zero_gives_infinity() {
    let g = Point::default();
    assert_eq!(g.mul(0), Point::infinity());
    assert_eq!(g.mul(-5), Point::infinity());
    assert_eq!(Point::infinity().mul(9), Point::infinity());
}

#[test]
fn small_multiples_of_the_generator() {
    let g = Point::default();
    assert_eq!(
        g.double(),
        Point::Affine { x: 1464307942, y: 1796211778 }
    );
    assert_eq!(
        g.mul(3),
        Point::Affine { x: 1428377734, y: 2495570059 }
    );
    assert_eq!(
        g.neg(),
        Point::Affine { x: 1668671046, y: 2383719125 }
    );
}

#[test]
fn generator_lies_on_the_curve() {
    // y^2 == x^3 + a*x + b (mod p) for the fixed generator.
    let p = CURVE_P as u128;
    let x = 1668671046u128;
    let y = 372808598u128;
    let lhs = (y * y) % p;
    let rhs = (((x * x) % p) * x % p + (CURVE_A as u128) * x % p + CURVE_B as u128) % p;
    assert_eq!(lhs, rhs);
    let ec = EC::default();
    assert_eq!(ec.p, CURVE_P);
    assert_eq!(ec.n, CURVE_N);
}

#[test]
fn group_order_annihilates_the_generator() {
    let g = Point::default();
    assert_eq!(g.mul(CURVE_N as i64), Point::infinity());
    assert!(!g.mul((CURVE_N - 1) as i64).is_none());
}

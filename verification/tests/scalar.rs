use raytracer::scalar::{clamp, magnitude, number, ratio, smaller, Real};



#[test]
fn clamp_holds_between_the_bounds() {
    assert_eq!(clamp(0.5, 0.0, 0.999), 0.5);
    assert_eq!(clamp(1.5, 0.0, 0.999), 0.999);
    assert_eq!(clamp(-0.5, 0.0, 0.999), 0.0);
    assert_eq!(clamp(0.0, 0.0, 0.999), 0.0);
    assert_eq!(clamp(0.999, 0.0, 0.999), 0.999);
    assert_eq!(clamp(7, 1, 5), 5);
    assert_eq!(clamp(-7, 1, 5), 1);
    assert_eq!(clamp(3, 1, 5), 3);
    assert_eq!(clamp(3, 3, 3), 3);
    assert_eq!(clamp(4, 3, 3), 3);
    assert_eq!(clamp('m', 'a', 'f'), 'f');
}

#[test]
fn whole_root_is_the_largest_whose_square_fits() {
    let expected: [(i64, i64); 12] = [
        (0, 0),
        (1, 1),
        (2, 1),
        (3, 1),
        (4, 2),
        (15, 3),
        (16, 4),
        (17, 4),
        (99, 9),
        (1_000_000, 1000),
        (9_223_372_030_926_249_001, 3_037_000_499),
        (i64::MAX, 3_037_000_499),
    ];
    for (x, root) in expected {
        assert_eq!(x.sqrt(), root);
    }
    assert_eq!(i64::infinity(), i64::MAX);
}

#[test]
fn numbers_and_fractions_are_the_nearest_scalars() {
    assert_eq!(number::<f64>(0), 0.0);
    assert_eq!(number::<f64>(-1), -1.0);
    assert_eq!(number::<f64>(256), 256.0);
    assert_eq!(number::<i64>(-7), -7);
    assert_eq!(ratio::<f64>(1, 2), 0.5);
    assert_eq!(ratio::<f64>(7, 10), 0.7);
    assert_eq!(ratio::<f64>(1, 1000), 0.001);
    assert_eq!(ratio::<f64>(999, 1000), 0.999);
    assert_eq!(ratio::<f64>(1, 100_000_000), 1e-8);
    assert_eq!(ratio::<f64>(-201, 2), -100.5);
    assert_eq!(ratio::<f64>(-45, 100), -0.45);
    assert_eq!(ratio::<i64>(7, 2), 3);
    assert_eq!(ratio::<i64>(-7, 2), -3);
}

#[test]
fn smaller_and_magnitude() {
    assert_eq!(smaller(0.5, 1.0), 0.5);
    assert_eq!(smaller(1.5, 1.0), 1.0);
    assert_eq!(smaller(1.0, 1.0), 1.0);
    assert_eq!(smaller(3, -4), -4);
    assert_eq!(magnitude(-2.5), 2.5);
    assert_eq!(magnitude(2.5), 2.5);
    assert_eq!(magnitude(0.0), 0.0);
    assert_eq!(magnitude(-9i64), 9);
}

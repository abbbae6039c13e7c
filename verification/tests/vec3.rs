use float_cmp::{ApproxEq, F64Margin};
use raytracer::vec3::{scale, Color, Point3, Vec3};

#[test]
fn test_add() {
    assert_eq!(
        Vec3::new(4.0, 4.0, 4.0),
        Vec3::new(2.0, 2.0, 2.0) + Vec3::new(2.0, 2.0, 2.0)
    );
    assert_eq!(
        Vec3::new(3.1, 4.2, 5.3),
        Vec3::new(0.1, 0.2, 0.3) + Vec3::new(3.0, 4.0, 5.0)
    );
}

#[test]
fn test_add_assign() {
    let mut act: Vec3<f64>;

    act = Vec3::new(2.0, 2.0, 2.0);
    act.add_assign(Vec3::new(2.0, 2.0, 2.0));
    assert_eq!(Vec3::new(4.0, 4.0, 4.0), act);

    act = Vec3::new(0.1, 0.2, 0.3);
    act.add_assign(Vec3::new(3.0, 4.0, 5.0));
    assert_eq!(Vec3::new(3.1, 4.2, 5.3), act);
}

#[test]
fn test_subtract() {
    assert_eq!(
        Vec3::new(4.0, 4.0, 4.0),
        Vec3::new(6.0, 6.0, 6.0) - Vec3::new(2.0, 2.0, 2.0)
    );
    assert_eq!(
        Vec3::new(3.1, 4.2, 5.3),
        Vec3::new(4.0, 5.0, 6.0) - Vec3::new(0.9, 0.8, 0.7)
    );
}

#[test]
fn test_sub_assign() {
    let mut act: Vec3<f64>;

    act = Vec3::new(6.0, 6.0, 6.0);
    act.sub_assign(Vec3::new(2.0, 2.0, 2.0));
    assert_eq!(Vec3::new(4.0, 4.0, 4.0), act);

    act = Vec3::new(3.0, 4.0, 5.0);
    act.sub_assign(Vec3::new(0.1, 0.2, 0.3));
    assert_eq!(Vec3::new(2.9, 3.8, 4.7), act);
}

#[test]
fn test_multiply_vec3_to_vec3() {
    assert_eq!(
        Vec3::new(4.0, 9.0, 16.0),
        Vec3::new(2.0, 3.0, 4.0) * Vec3::new(2.0, 3.0, 4.0)
    );
    assert_eq!(
        Vec3::new(6.0, 12.0, 20.0),
        Vec3::new(2.0, 3.0, 4.0) * Vec3::new(3.0, 4.0, 5.0)
    );
}

#[test]
fn test_multiply_float_to_vec3() {
    assert_eq!(Vec3::new(4.0, 6.0, 8.0), Vec3::new(2.0, 3.0, 4.0) * 2.0);
    assert_eq!(Vec3::new(10.0, 12.0, 14.0), scale(2.0, Vec3::new(5.0, 6.0, 7.0)));
}

#[test]
fn test_multiply_assign() {
    let mut act: Vec3<f64>;

    act = Vec3::new(6.0, 6.0, 6.0);
    act.mul_assign(2.0);
    assert_eq!(Vec3::new(12.0, 12.0, 12.0), act);

    act = Vec3::new(3.0, 4.0, 5.0);
    act.mul_assign(5.0);
    assert_eq!(Vec3::new(15.0, 20.0, 25.0), act);
}

#[test]
fn test_divide() {
    assert_eq!(Vec3::new(2.0, 4.0, 6.0), Vec3::new(4.0, 8.0, 12.0) / 2.0);
    assert_eq!(Vec3::new(3.0, 3.0, 3.0), Vec3::new(9.0, 9.0, 9.0) / 3.0);
}

#[test]
fn test_divide_assign() {
    let mut act: Vec3<f64>;

    act = Vec3::new(12.0, 12.0, 12.0);
    act.div_assign(2.0);
    assert_eq!(Vec3::new(6.0, 6.0, 6.0), act);

    act = Vec3::new(15.0, 20.0, 25.0);
    act.div_assign(5.0);
    assert_eq!(Vec3::new(3.0, 4.0, 5.0), act);
}

#[test]
fn test_index() {
    let vec = Vec3::new(3.0, 4.0, 5.0);
    let margin = F64Margin::zero().ulps(2);
    assert!(vec.index(0).approx_eq(3.0, margin));
    assert!(vec.index(1).approx_eq(4.0, margin));
    assert!(vec.index(2).approx_eq(5.0, margin));
}

#[test]
fn test_index_mut() {
    #[allow(unused_assignments)]
    let mut vec = Vec3::new(3.0, 4.0, 5.0);

    vec = Vec3::new(4.0, 5.0, 6.0);
    let margin = F64Margin::zero().ulps(2);
    assert!(vec.index(0).approx_eq(4.0, margin));
    assert!(vec.index(1).approx_eq(5.0, margin));
    assert!(vec.index(2).approx_eq(6.0, margin));
}

#[test]
fn test_negate() {
    assert_eq!(Vec3::new(-2.0, -4.0, -6.0), -Vec3::new(2.0, 4.0, 6.0));
    assert_eq!(Vec3::new(-3.0, -3.0, -3.0), -Vec3::new(3.0, 3.0, 3.0));
}

#[test]
fn test_type_aliases() {
    assert_eq!(
        Color {
            x: 3.0,
            y: 3.0,
            z: 3.0
        },
        Vec3 {
            x: 3.0,
            y: 3.0,
            z: 3.0
        }
    );
    assert_eq!(
        Point3 {
            x: 4.0,
            y: 4.0,
            z: 4.0
        },
        Vec3 {
            x: 4.0,
            y: 4.0,
            z: 4.0
        }
    );
}

#[test]
fn test_dot_product() {
    let exp: f64 = 3.0;
    let act = Vec3::new(1.0, 1.0, 1.0).dot(Vec3::new(1.0, 1.0, 1.0));
    assert!(exp.approx_eq(act, F64Margin::zero().ulps(2)));
}

#[test]
fn test_cross_product() {
    let exp = Vec3::new(-1.0, 2.0, -1.0);
    let act = Vec3::new(2.0, 3.0, 4.0).cross(Vec3::new(3.0, 4.0, 5.0));
    assert_eq!(exp, act);
}

#[test]
fn components_are_found_by_index() {
    let mut vec = Vec3::new(3.0, 4.0, 5.0);
    assert_eq!(*vec.index(0), 3.0);
    assert_eq!(*vec.index(1), 4.0);
    assert_eq!(*vec.index(2), 5.0);
    *vec.index_mut(0) = 6.0;
    assert_eq!(vec, Vec3::new(6.0, 4.0, 5.0));
    *vec.index_mut(1) = 7.0;
    assert_eq!(vec, Vec3::new(6.0, 7.0, 5.0));
    *vec.index_mut(2) += 3.0;
    assert_eq!(vec, Vec3::new(6.0, 7.0, 8.0));
}

#[test]
fn length_squared_is_the_sum_of_the_squares() {
    assert_eq!(Vec3::new(1.0, 2.0, 3.0).length_squared(), 14.0);
    assert_eq!(Vec3::new(0.0, 0.0, 0.0).length_squared(), 0.0);
    assert_eq!(Vec3::new(-2i64, 3, 6).length_squared(), 49);
}

#[test]
fn reflect_mirrors_at_the_surface() {
    let n = Vec3::new(0.0, 1.0, 0.0);
    assert_eq!(Vec3::new(1.0, -1.0, 0.0).reflect(n), Vec3::new(1.0, 1.0, 0.0));
    assert_eq!(Vec3::new(0.0, -3.0, 0.0).reflect(n), Vec3::new(0.0, 3.0, 0.0));
    assert_eq!(Vec3::new(2.0, 0.0, 5.0).reflect(n), Vec3::new(2.0, 0.0, 5.0));
    assert_eq!(Vec3::new(1i64, -1, 4).reflect(Vec3::new(0, 1, 0)), Vec3::new(1, 1, 4));
}

#[test]
fn reflect_flips_the_part_along_the_normal() {
    let normals: [Vec3<f64>; 3] = [
        Vec3::new(0.0, 1.0, 0.0),
        Vec3::new(0.6, 0.0, 0.8),
        Vec3::new(0.5773502691896257, 0.5773502691896257, 0.5773502691896257),
    ];
    let vectors = [
        Vec3::new(1.0, -1.0, 0.0),
        Vec3::new(0.3, 0.2, -0.9),
        Vec3::new(-4.0, 2.5, 1.0),
    ];
    for n in normals {
        for vector in vectors {
            let along: f64 = vector.reflect(n).dot(n);
            let before: f64 = vector.dot(n);
            assert!((along + before).abs() < 1e-12);
        }
    }
}

#[test]
fn near_zero_is_below_a_hundred_millionth() {
    assert!(Vec3::new(0.0, 0.0, 0.0).near_zero());
    assert!(Vec3::new(9e-9, -9e-9, 9e-9).near_zero());
    assert!(!Vec3::new(1e-8, 0.0, 0.0).near_zero());
    assert!(!Vec3::new(0.0, -1e-8, 0.0).near_zero());
    assert!(!Vec3::new(0.0, 0.0, 2e-8).near_zero());
    assert!(!Vec3::new(1.0, 1.0, 1.0).near_zero());
}

#[test]
fn ball_holds_what_is_nearer_than_one() {
    assert!(Vec3::new(0.5, 0.5, 0.5).inside_unit_sphere());
    assert!(Vec3::new(0.0, 0.0, 0.0).inside_unit_sphere());
    assert!(!Vec3::new(1.0, 0.0, 0.0).inside_unit_sphere());
    assert!(!Vec3::new(0.9, 0.9, 0.9).inside_unit_sphere());
}

#[test]
fn turned_toward_points_to_the_side_of_the_normal() {
    let n = Vec3::new(0.0, 0.0, 1.0);
    assert_eq!(Vec3::new(0.1, 0.2, 0.3).turned_toward(n), Vec3::new(0.1, 0.2, 0.3));
    assert_eq!(Vec3::new(0.1, 0.2, -0.3).turned_toward(n), Vec3::new(-0.1, -0.2, 0.3));
    assert_eq!(Vec3::new(3i64, 4, -5).turned_toward(Vec3::new(0, 0, 1)), Vec3::new(-3, -4, 5));
}

#[test]
fn integer_vectors_compute_exactly() {
    let a = Vec3::new(1i64, 2, 3);
    let b = Vec3::new(4i64, 5, 6);
    assert_eq!(a + b, Vec3::new(5, 7, 9));
    assert_eq!(a - b, Vec3::new(-3, -3, -3));
    assert_eq!(a * b, Vec3::new(4, 10, 18));
    assert_eq!(a * 3, Vec3::new(3, 6, 9));
    assert_eq!(scale(3, a), Vec3::new(3, 6, 9));
    assert_eq!(-a, Vec3::new(-1, -2, -3));
    assert_eq!(a.dot(b), 32);
    assert_eq!(a.cross(b), Vec3::new(-3, 6, -3));
    assert_eq!(b / 1, b);
}

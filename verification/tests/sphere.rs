use raytracer::hittable::sphere::Sphere;
use raytracer::hittable::Hittable;
use raytracer::material::lambertian::Lambertian;
use raytracer::material::Material;
use raytracer::ray::Ray;
use raytracer::sampler::Sampler;
use raytracer::scalar::Real;
use raytracer::vec3::Vec3;
use std::ops::{Add, Div, Mul, Neg, Sub};

#[derive(Clone, Copy, Debug, PartialEq, PartialOrd)]
struct F(f64);

impl Add for F {
    type Output = F;
    fn add(self, rhs: F) -> F {
        F(self.0 + rhs.0)
    }
}

impl Sub for F {
    type Output = F;
    fn sub(self, rhs: F) -> F {
        F(self.0 - rhs.0)
    }
}

impl Mul for F {
    type Output = F;
    fn mul(self, rhs: F) -> F {
        F(self.0 * rhs.0)
    }
}

impl Div for F {
    type Output = F;
    fn div(self, rhs: F) -> F {
        F(self.0 / rhs.0)
    }
}

impl Neg for F {
    type Output = F;
    fn neg(self) -> F {
        F(-self.0)
    }
}

impl From<i32> for F {
    fn from(n: i32) -> F {
        F(f64::from(n))
    }
}

impl Real for F {
    fn sqrt(self) -> F {
        F(self.0.sqrt())
    }

    fn infinity() -> F {
        F(f64::INFINITY)
    }
}

#[allow(dead_code)]
fn v(x: f64, y: f64, z: f64) -> Vec3<F> {
    Vec3::new(F(x), F(y), F(z))
}

/// Hands out what it was given, in turn.
#[allow(dead_code)]
struct Script {
    scalars: Vec<f64>,
    points: Vec<Vec3<F>>,
}

#[allow(dead_code)]
impl Script {
    fn new(scalars: Vec<f64>, points: Vec<Vec3<F>>) -> Script {
        Script { scalars, points }
    }
}

impl Sampler<F> for Script {
    fn uniform(&mut self, min: F, max: F) -> F {
        let s = self.scalars.remove(0);
        assert!(min.0 <= s && s < max.0);
        F(s)
    }

    fn in_unit_sphere(&mut self) -> Vec3<F> {
        self.points.remove(0)
    }

    fn in_unit_disk(&mut self) -> Vec3<F> {
        self.points.remove(0)
    }
}


fn matt() -> Material<F> {
    Material::Lambertian(Lambertian::new(v(0.1, 0.2, 0.5)))
}

#[test]
fn head_on_ray_hits_at_distance_less_radius() {
    let sphere = Sphere::new(v(0.0, 0.0, -5.0), F(1.0), matt());
    let ray = Ray::new(v(0.0, 0.0, 0.0), v(0.0, 0.0, -1.0));
    let hit = sphere.hit(&ray, F(0.001), F::infinity()).unwrap();
    assert_eq!(hit.t, F(4.0));
    assert_eq!(hit.p, v(0.0, 0.0, -4.0));
    assert_eq!(hit.normal, v(0.0, 0.0, 1.0));
    assert!(hit.front_face);
    assert_eq!(*hit.material, matt());
}

#[test]
fn head_on_ray_with_long_direction() {
    // The direction need not have length one: the parameter scales with it.
    let sphere = Sphere::new(v(0.0, 0.0, -5.0), F(1.0), matt());
    let ray = Ray::new(v(0.0, 0.0, 0.0), v(0.0, 0.0, -2.0));
    let hit = sphere.hit(&ray, F(0.001), F::infinity()).unwrap();
    assert_eq!(hit.t, F(2.0));
    assert_eq!(hit.p, v(0.0, 0.0, -4.0));
}

#[test]
fn ray_that_passes_by_misses() {
    let sphere = Sphere::new(v(0.0, 0.0, -5.0), F(1.0), matt());
    let ray = Ray::new(v(0.0, 2.0, 0.0), v(0.0, 0.0, -1.0));
    assert!(sphere.hit(&ray, F(0.001), F::infinity()).is_none());
}

#[test]
fn ray_from_inside_hits_once_from_behind() {
    let sphere = Sphere::new(v(0.0, 0.0, -5.0), F(1.0), matt());
    let ray = Ray::new(v(0.0, 0.0, -5.0), v(0.0, 0.0, -1.0));
    let hit = sphere.hit(&ray, F(0.001), F::infinity()).unwrap();
    assert_eq!(hit.t, F(1.0));
    assert!(!hit.front_face);
    // The stored normal is turned against the ray.
    assert_eq!(hit.normal, v(0.0, 0.0, 1.0));
    // Beyond that hit there is no other.
    assert!(sphere.hit(&ray, F(1.0), F::infinity()).is_none());
}

#[test]
fn hit_lies_above_lower_bound() {
    let sphere = Sphere::new(v(0.0, 0.0, -5.0), F(1.0), matt());
    let ray = Ray::new(v(0.0, 0.0, 0.0), v(0.0, 0.0, -1.0));
    // The roots are 4 and 6. A lower bound at a root leaves that root out.
    let hit = sphere.hit(&ray, F(4.0), F::infinity()).unwrap();
    assert_eq!(hit.t, F(6.0));
    assert!(!hit.front_face);
    assert!(sphere.hit(&ray, F(6.0), F::infinity()).is_none());
}

#[test]
fn hit_lies_not_above_upper_bound() {
    let sphere = Sphere::new(v(0.0, 0.0, -5.0), F(1.0), matt());
    let ray = Ray::new(v(0.0, 0.0, 0.0), v(0.0, 0.0, -1.0));
    // An upper bound at a root lets that root in.
    assert_eq!(sphere.hit(&ray, F(0.001), F(4.0)).unwrap().t, F(4.0));
    assert!(sphere.hit(&ray, F(0.001), F(3.999)).is_none());
    assert_eq!(sphere.hit(&ray, F(4.5), F(6.0)).unwrap().t, F(6.0));
    assert!(sphere.hit(&ray, F(4.5), F(5.5)).is_none());
}

#[test]
fn radius_below_zero_turns_normal_inward() {
    let sphere = Sphere::new(v(0.0, 0.0, -5.0), F(-1.0), matt());
    let ray = Ray::new(v(0.0, 0.0, 0.0), v(0.0, 0.0, -1.0));
    let hit = sphere.hit(&ray, F(0.001), F::infinity()).unwrap();
    assert_eq!(hit.t, F(4.0));
    // The outward normal points to the centre, so the ray comes from behind.
    assert!(!hit.front_face);
    assert_eq!(hit.normal, v(0.0, 0.0, 1.0));
}

#[test]
fn record_at_gives_point_and_normal() {
    let sphere = Sphere::new(v(1.0, 2.0, 3.0), F(2.0), matt());
    let ray = Ray::new(v(1.0, 2.0, 7.0), v(0.0, 0.0, -1.0));
    let record = sphere.record_at(&ray, F(2.0));
    assert_eq!(record.t, F(2.0));
    assert_eq!(record.p, v(1.0, 2.0, 5.0));
    assert_eq!(record.normal, v(0.0, 0.0, 1.0));
    assert!(record.front_face);
}

#[test]
fn ray_down_the_axis_meets_the_small_sphere() {
    let world = vec![
        Sphere::new(v(0.0, 0.0, -1.0), F(0.5), matt()),
        Sphere::new(
            v(0.0, -100.5, -1.0),
            F(100.0),
            Material::Lambertian(Lambertian::new(v(0.8, 0.8, 0.0))),
        ),
    ];
    let ray = Ray::new(v(0.0, 0.0, 0.0), v(0.0, 0.0, -1.0));
    let hit = world.hit(&ray, F(0.001), F::infinity()).unwrap();
    assert!((hit.t.0 - 0.5).abs() < 1e-12);
    assert_eq!(hit.normal, v(0.0, 0.0, 1.0));
    assert!(hit.front_face);
    assert_eq!(*hit.material, matt());
}

#[test]
fn integer_sphere_is_hit_at_whole_parameter() {
    let sphere = Sphere::new(
        Vec3::new(0i64, 0, -10),
        1i64,
        Material::Lambertian(Lambertian::new(Vec3::new(0i64, 0, 0))),
    );
    let ray = Ray::new(Vec3::new(0i64, 0, 0), Vec3::new(0i64, 0, -1));
    let hit = sphere.hit(&ray, 0, i64::infinity()).unwrap();
    assert_eq!(hit.t, 9);
    assert_eq!(hit.p, Vec3::new(0, 0, -9));
    assert_eq!(hit.normal, Vec3::new(0, 0, 1));
    assert!(hit.front_face);
}

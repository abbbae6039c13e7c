use raytracer::hittable::sphere::Sphere;
use raytracer::hittable::Hittable;
use raytracer::material::dielectric::Dielectric;
use raytracer::material::lambertian::Lambertian;
use raytracer::material::metal::Metal;
use raytracer::material::Material;
use raytracer::ray::Ray;
use raytracer::sampler::Sampler;
use raytracer::scalar::Real;
use raytracer::vec3::Vec3;
use raytracer::world::{book_cover_scene, small_sphere, test_world};
use std::ops::{Add, Div, Mul, Neg, Sub};

#[derive(Clone, Copy, Debug, PartialEq, PartialOrd)]
struct F(f64);

impl Add for F {
    type Output = F;
    fn add(self, rhs: F) -> F {
        F(self.0 + rhs.0)
    }
}

impl Sub for F {
    type Output = F;
    fn sub(self, rhs: F) -> F {
        F(self.0 - rhs.0)
    }
}

impl Mul for F {
    type Output = F;
    fn mul(self, rhs: F) -> F {
        F(self.0 * rhs.0)
    }
}

impl Div for F {
    type Output = F;
    fn div(self, rhs: F) -> F {
        F(self.0 / rhs.0)
    }
}

impl Neg for F {
    type Output = F;
    fn neg(self) -> F {
        F(-self.0)
    }
}

impl From<i32> for F {
    fn from(n: i32) -> F {
        F(f64::from(n))
    }
}

impl Real for F {
    fn sqrt(self) -> F {
        F(self.0.sqrt())
    }

    fn infinity() -> F {
        F(f64::INFINITY)
    }
}

#[allow(dead_code)]
fn v(x: f64, y: f64, z: f64) -> Vec3<F> {
    Vec3::new(F(x), F(y), F(z))
}

/// Hands out what it was given, in turn.
#[allow(dead_code)]
struct Script {
    scalars: Vec<f64>,
    points: Vec<Vec3<F>>,
}

#[allow(dead_code)]
impl Script {
    fn new(scalars: Vec<f64>, points: Vec<Vec3<F>>) -> Script {
        Script { scalars, points }
    }
}

impl Sampler<F> for Script {
    fn uniform(&mut self, min: F, max: F) -> F {
        let s = self.scalars.remove(0);
        assert!(min.0 <= s && s < max.0);
        F(s)
    }

    fn in_unit_sphere(&mut self) -> Vec3<F> {
        self.points.remove(0)
    }

    fn in_unit_disk(&mut self) -> Vec3<F> {
        self.points.remove(0)
    }
}


fn ball(z: f64, shade: f64) -> Sphere<F> {
    Sphere::new(
        v(0.0, 0.0, z),
        F(1.0),
        Material::Lambertian(Lambertian::new(v(shade, shade, shade))),
    )
}

#[test]
fn empty_scene_is_never_hit() {
    let world: Vec<Sphere<F>> = Vec::new();
    let ray = Ray::new(v(0.0, 0.0, 0.0), v(0.0, 0.0, -1.0));
    assert!(world.hit(&ray, F(0.001), F::infinity()).is_none());
}

#[test]
fn scene_reports_nearest_in_any_order() {
    let ray = Ray::new(v(0.0, 0.0, 0.0), v(0.0, 0.0, -1.0));
    // Three spheres that overlap along the ray; the one at -4 is met first.
    let balls = [ball(-5.0, 0.5), ball(-4.0, 0.4), ball(-6.0, 0.6)];
    let orders = [
        [0, 1, 2],
        [0, 2, 1],
        [1, 0, 2],
        [1, 2, 0],
        [2, 0, 1],
        [2, 1, 0],
    ];
    for order in orders {
        let world: Vec<Sphere<F>> = order.iter().map(|&i| balls[i]).collect();
        let hit = world.hit(&ray, F(0.001), F::infinity()).unwrap();
        assert_eq!(hit.t, F(3.0));
        assert_eq!(hit.p, v(0.0, 0.0, -3.0));
        assert_eq!(*hit.material, balls[1].material);
    }
}

#[test]
fn scene_keeps_to_the_bounds() {
    let ray = Ray::new(v(0.0, 0.0, 0.0), v(0.0, 0.0, -1.0));
    let world = vec![ball(-4.0, 0.4), ball(-10.0, 0.6)];
    // Past the first sphere only the second is left.
    let hit = world.hit(&ray, F(5.0), F::infinity()).unwrap();
    assert_eq!(hit.t, F(9.0));
    assert!(world.hit(&ray, F(5.0), F(8.0)).is_none());
    assert!(world.hit(&ray, F(11.0), F::infinity()).is_none());
}

#[test]
fn scene_of_integers_reports_nearest() {
    let ray = Ray::new(Vec3::new(0i64, 0, 0), Vec3::new(0i64, 0, -1));
    let far = Sphere::new(
        Vec3::new(0i64, 0, -20),
        1i64,
        Material::Lambertian(Lambertian::new(Vec3::new(1i64, 1, 1))),
    );
    let near = Sphere::new(
        Vec3::new(0i64, 0, -10),
        1i64,
        Material::Lambertian(Lambertian::new(Vec3::new(2i64, 2, 2))),
    );
    assert_eq!(vec![far, near].hit(&ray, 0, i64::infinity()).unwrap().t, 9);
    assert_eq!(vec![near, far].hit(&ray, 0, i64::infinity()).unwrap().t, 9);
}

#[test]
fn small_scene_holds_five_spheres() {
    let world: Vec<Sphere<f64>> = test_world();
    assert_eq!(world.len(), 5);
    assert_eq!(
        world[0],
        Sphere::new(
            Vec3::new(0.0, -100.5, -1.0),
            100.0,
            Material::Lambertian(Lambertian::new(Vec3::new(0.8, 0.8, 0.0)))
        )
    );
    assert_eq!(
        world[1],
        Sphere::new(
            Vec3::new(0.0, 0.0, -1.0),
            0.5,
            Material::Lambertian(Lambertian::new(Vec3::new(0.1, 0.2, 0.5)))
        )
    );
    assert_eq!(
        world[2],
        Sphere::new(
            Vec3::new(-1.0, 0.0, -1.0),
            0.5,
            Material::Dielectric(Dielectric::new(1.5))
        )
    );
    assert_eq!(
        world[3],
        Sphere::new(
            Vec3::new(-1.0, 0.0, -1.0),
            -0.45,
            Material::Dielectric(Dielectric::new(1.5))
        )
    );
    assert_eq!(
        world[4],
        Sphere::new(
            Vec3::new(1.0, 0.0, -1.0),
            0.5,
            Material::Metal(Metal::new(Vec3::new(0.8, 0.6, 0.2), 0.0))
        )
    );
}

/// Scalars that look random and are the same in every run.
struct Lcg(u64);

impl Sampler<F> for Lcg {
    fn uniform(&mut self, min: F, max: F) -> F {
        self.0 = self.0.wrapping_mul(6364136223846793005).wrapping_add(1442695040888963407);
        let unit = (self.0 >> 11) as f64 / (1u64 << 53) as f64;
        F(min.0 + (max.0 - min.0) * unit)
    }

    fn in_unit_sphere(&mut self) -> Vec3<F> {
        unreachable!()
    }

    fn in_unit_disk(&mut self) -> Vec3<F> {
        unreachable!()
    }
}

#[test]
fn large_scene_holds_ground_grid_and_three_large_spheres() {
    let world = book_cover_scene(&mut Lcg(42));
    assert_eq!(world.len(), 488);
    assert_eq!(
        world[0],
        Sphere::new(
            v(0.0, -1000.0, 0.0),
            F(1000.0),
            Material::Lambertian(Lambertian::new(v(0.5, 0.5, 0.5)))
        )
    );
    assert_eq!(
        world[485],
        Sphere::new(v(0.0, 1.0, 0.0), F(1.0), Material::Dielectric(Dielectric::new(F(1.5))))
    );
    assert_eq!(
        world[486],
        Sphere::new(
            v(-4.0, 1.0, 0.0),
            F(1.0),
            Material::Lambertian(Lambertian::new(v(0.4, 0.2, 0.1)))
        )
    );
    assert_eq!(
        world[487],
        Sphere::new(
            v(4.0, 1.0, 0.0),
            F(1.0),
            Material::Metal(Metal::new(v(0.7, 0.6, 0.5), F(0.0)))
        )
    );
    let mut matt = 0;
    for k in 0..484 {
        let sphere = world[1 + k];
        let a = (k / 22) as f64 - 11.0;
        let b = (k % 22) as f64 - 11.0;
        assert_eq!(sphere.radius, F(0.2));
        assert_eq!(sphere.center.y, F(0.2));
        assert!(a <= sphere.center.x.0 && sphere.center.x.0 < a + 0.9);
        assert!(b <= sphere.center.z.0 && sphere.center.z.0 < b + 0.9);
        let apart = (sphere.center - v(4.0, 0.2, 0.0)).length().0 > 0.9;
        match sphere.material {
            Material::Lambertian(_) => {
                assert!(apart);
                matt += 1;
            }
            Material::Metal(metal) => {
                assert!(!apart);
                assert!(0.0 <= metal.fuzz.0 && metal.fuzz.0 < 0.5);
                assert!(0.5 <= metal.albedo.x.0 && metal.albedo.x.0 < 1.0);
            }
            Material::Dielectric(glass) => {
                assert!(!apart);
                assert_eq!(glass.ir, F(1.5));
            }
        }
    }
    // Only the few cells round (4, 0.2, 0) can hold anything but a matt sphere.
    assert!(matt >= 480);
}

#[test]
fn small_sphere_is_what_was_drawn() {
    // Far from (4, 0.2, 0): matt, tinted by the product of two colours.
    let mut script = Script::new(vec![0.99, 0.5, 0.5, 0.1, 0.2, 0.3, 0.5, 0.5, 0.5], vec![]);
    let sphere = small_sphere(-3, 7, &mut script);
    assert_eq!(sphere.center, v(-3.0 + 0.9 * 0.5, 0.2, 7.0 + 0.9 * 0.5));
    assert_eq!(sphere.radius, F(0.2));
    assert_eq!(
        sphere.material,
        Material::Lambertian(Lambertian::new(v(0.1 * 0.5, 0.2 * 0.5, 0.3 * 0.5)))
    );
    assert!(script.scalars.is_empty());

    // Near it, and the first draw below 0.95: a mirror.
    let mut script = Script::new(vec![0.5, 0.0, 0.0, 0.6, 0.7, 0.8, 0.25], vec![]);
    let sphere = small_sphere(4, 0, &mut script);
    assert_eq!(sphere.center, v(4.0, 0.2, 0.0));
    assert_eq!(sphere.material, Material::Metal(Metal::new(v(0.6, 0.7, 0.8), F(0.25))));
    assert!(script.scalars.is_empty());

    // Near it, and the first draw not below 0.95: glass.
    let mut script = Script::new(vec![0.95, 0.0, 0.0], vec![]);
    let sphere = small_sphere(4, 0, &mut script);
    assert_eq!(sphere.material, Material::Dielectric(Dielectric::new(F(1.5))));
    assert!(script.scalars.is_empty());
}

use raytracer::camera::Camera;
use raytracer::ray::Ray;
use raytracer::sampler::Sampler;
use raytracer::scalar::Real;
use raytracer::vec3::Vec3;
use std::ops::{Add, Div, Mul, Neg, Sub};

#[derive(Clone, Copy, Debug, PartialEq, PartialOrd)]
struct F(f64);

impl Add for F {
    type Output = F;
    fn add(self, rhs: F) -> F {
        F(self.0 + rhs.0)
    }
}

impl Sub for F {
    type Output = F;
    fn sub(self, rhs: F) -> F {
        F(self.0 - rhs.0)
    }
}

impl Mul for F {
    type Output = F;
    fn mul(self, rhs: F) -> F {
        F(self.0 * rhs.0)
    }
}

impl Div for F {
    type Output = F;
    fn div(self, rhs: F) -> F {
        F(self.0 / rhs.0)
    }
}

impl Neg for F {
    type Output = F;
    fn neg(self) -> F {
        F(-self.0)
    }
}

impl From<i32> for F {
    fn from(n: i32) -> F {
        F(f64::from(n))
    }
}

impl Real for F {
    fn sqrt(self) -> F {
        F(self.0.sqrt())
    }

    fn infinity() -> F {
        F(f64::INFINITY)
    }
}

#[allow(dead_code)]
fn v(x: f64, y: f64, z: f64) -> Vec3<F> {
    Vec3::new(F(x), F(y), F(z))
}

/// Hands out what it was given, in turn.
#[allow(dead_code)]
struct Script {
    scalars: Vec<f64>,
    points: Vec<Vec3<F>>,
}

#[allow(dead_code)]
impl Script {
    fn new(scalars: Vec<f64>, points: Vec<Vec3<F>>) -> Script {
        Script { scalars, points }
    }
}

impl Sampler<F> for Script {
    fn uniform(&mut self, min: F, max: F) -> F {
        let s = self.scalars.remove(0);
        assert!(min.0 <= s && s < max.0);
        F(s)
    }

    fn in_unit_sphere(&mut self) -> Vec3<F> {
        self.points.remove(0)
    }

    fn in_unit_disk(&mut self) -> Vec3<F> {
        self.points.remove(0)
    }
}


fn close(a: Vec3<F>, b: Vec3<F>) -> bool {
    (a.x.0 - b.x.0).abs() < 1e-12 && (a.y.0 - b.y.0).abs() < 1e-12 && (a.z.0 - b.z.0).abs() < 1e-12
}

fn straight(aperture: f64) -> Camera<F> {
    // At the origin, looking down -z, a right angle of view, twice as wide as
    // high, sharp at distance one.
    Camera::new(
        v(0.0, 0.0, 0.0),
        v(0.0, 0.0, -1.0),
        v(0.0, 1.0, 0.0),
        F(1.0),
        F(2.0),
        F(aperture),
        F(1.0),
    )
}

#[test]
fn camera_frame_is_derived_from_where_it_looks() {
    let camera = straight(0.0);
    assert_eq!(camera.origin, v(0.0, 0.0, 0.0));
    assert_eq!(camera.u, v(1.0, 0.0, 0.0));
    assert_eq!(camera.v, v(0.0, 1.0, 0.0));
    assert_eq!(camera.horizontal, v(4.0, 0.0, 0.0));
    assert_eq!(camera.vertical, v(0.0, 2.0, 0.0));
    assert_eq!(camera.lower_left_corner, v(-2.0, -1.0, -1.0));
    assert_eq!(camera.lens_radius, F(0.0));
}

#[test]
fn camera_scales_the_viewport_by_the_focus_distance() {
    let camera = Camera::new(
        v(0.0, 0.0, 0.0),
        v(0.0, 0.0, -1.0),
        v(0.0, 1.0, 0.0),
        F(0.5),
        F(3.0),
        F(0.5),
        F(4.0),
    );
    assert_eq!(camera.horizontal, v(12.0, 0.0, 0.0));
    assert_eq!(camera.vertical, v(0.0, 4.0, 0.0));
    assert_eq!(camera.lower_left_corner, v(-6.0, -2.0, -4.0));
    assert_eq!(camera.lens_radius, F(0.25));
}

#[test]
fn pinhole_rays_start_at_the_camera() {
    let camera = straight(0.0);
    let disk = v(0.3, -0.4, 0.0);
    assert_eq!(
        camera.get_ray_through(F(0.5), F(0.5), disk),
        Ray::new(v(0.0, 0.0, 0.0), v(0.0, 0.0, -1.0))
    );
    assert_eq!(
        camera.get_ray_through(F(0.0), F(0.0), disk),
        Ray::new(v(0.0, 0.0, 0.0), v(-2.0, -1.0, -1.0))
    );
    assert_eq!(
        camera.get_ray_through(F(1.0), F(1.0), disk),
        Ray::new(v(0.0, 0.0, 0.0), v(2.0, 1.0, -1.0))
    );
}

#[test]
fn rays_through_the_lens_meet_on_the_focus_plane() {
    let camera = straight(2.0);
    let target = v(1.0, 0.5, -1.0);
    for disk in [v(0.0, 0.0, 0.0), v(0.5, 0.0, 0.0), v(-0.3, 0.6, 0.0), v(0.0, -0.9, 0.0)] {
        let ray = camera.get_ray_through(F(0.75), F(0.75), disk);
        assert_eq!(ray.origin, v(disk.x.0, disk.y.0, 0.0));
        assert!(close(ray.at(F(1.0)), target));
    }
}

#[test]
fn camera_draws_the_place_on_the_lens() {
    let camera = straight(2.0);
    let mut script = Script::new(vec![], vec![v(0.5, 0.0, 0.0)]);
    let ray = camera.get_ray(F(0.5), F(0.5), &mut script);
    assert_eq!(ray, camera.get_ray_through(F(0.5), F(0.5), v(0.5, 0.0, 0.0)));
    assert_eq!(ray, Ray::new(v(0.5, 0.0, 0.0), v(-0.5, 0.0, -1.0)));
    assert!(script.points.is_empty());
}

#[test]
fn tilted_camera_has_axes_of_length_one_at_right_angles() {
    let look_from = v(3.0, 3.0, 2.0);
    let look_at = v(0.0, 0.0, -1.0);
    let focus = (look_from - look_at).length();
    assert_eq!(focus, F(5.196152422706632));
    let camera = Camera::new(
        look_from,
        look_at,
        v(0.0, 1.0, 0.0),
        F(0.17632698070846498),
        F(16.0 / 9.0),
        F(2.0),
        focus,
    );
    assert!((camera.u.length().0 - 1.0).abs() < 1e-12);
    assert!((camera.v.length().0 - 1.0).abs() < 1e-12);
    assert!(camera.u.dot(camera.v).0.abs() < 1e-12);
    assert_eq!(camera.lens_radius, F(1.0));
    // The middle of the image lies where the camera looks at.
    let ray = camera.get_ray_through(F(0.5), F(0.5), v(0.0, 0.0, 0.0));
    assert!(close(ray.at(F(1.0)), look_at));
}

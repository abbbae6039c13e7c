//! The camera: from a place on the image to a ray into the scene.

use crate::ray::Ray;
use crate::sampler::Sampler;
use crate::scalar::{defined, defined_real, exact, exact_real, lit, number, Arith, Real};
use crate::vec3::{Point3, Vec3};
use vstd::prelude::*;
use vstd::std_specs::ops::{DivSpec, MulSpec};

verus! {

/// A camera with a thin lens. It is set up once and never changes.
#[derive(Clone, Copy, Debug, PartialEq)]
pub struct Camera<T> {
    /// The middle of the lens.
    pub origin: Point3<T>,
    /// The lower left corner of the part of the focus plane that is seen.
    pub lower_left_corner: Point3<T>,
    /// From the left to the right edge of that part.
    pub horizontal: Vec3<T>,
    /// From its lower to its upper edge.
    pub vertical: Vec3<T>,
    /// The direction to the right of the camera, of length one.
    pub u: Vec3<T>,
    /// The direction upward of the camera, of length one.
    pub v: Vec3<T>,
    /// Half the aperture.
    pub lens_radius: T,
}

impl<T: Real> Camera<T> {
    /// The direction from what the camera looks at back to the camera, of
    /// length one.
    pub open spec fn w_spec(look_from: Point3<T>, look_at: Point3<T>) -> Vec3<T> {
        look_from.minus_spec(look_at).unit_vector_spec()
    }

    /// The direction to the right of the camera: `v_up` cross `w`, brought to
    /// length one.
    pub open spec fn u_spec(look_from: Point3<T>, look_at: Point3<T>, v_up: Vec3<T>) -> Vec3<T> {
        v_up.cross_spec(Self::w_spec(look_from, look_at)).unit_vector_spec()
    }

    /// The direction upward of the camera: `w` cross `u`.
    pub open spec fn v_spec(look_from: Point3<T>, look_at: Point3<T>, v_up: Vec3<T>) -> Vec3<T> {
        Self::w_spec(look_from, look_at).cross_spec(Self::u_spec(look_from, look_at, v_up))
    }

    /// The height of what is seen at distance one: twice `half_height`.
    pub open spec fn viewport_height_spec(half_height: T) -> T {
        lit::<T>(2).mul_spec(half_height)
    }

    /// The width of what is seen at distance one.
    pub open spec fn viewport_width_spec(half_height: T, aspect_ratio: T) -> T {
        aspect_ratio.mul_spec(Self::viewport_height_spec(half_height))
    }

    pub open spec fn new_req(
        look_from: Point3<T>,
        look_at: Point3<T>,
        v_up: Vec3<T>,
        half_height: T,
        aspect_ratio: T,
        aperture: T,
        focus_dist: T,
    ) -> bool {
        let two = lit::<T>(2);
        let height = Self::viewport_height_spec(half_height);
        let width = Self::viewport_width_spec(half_height, aspect_ratio);
        let w = Self::w_spec(look_from, look_at);
        let u = Self::u_spec(look_from, look_at, v_up);
        let v = Self::v_spec(look_from, look_at, v_up);
        let horizontal = u.scaled_spec(focus_dist.mul_spec(width));
        let vertical = v.scaled_spec(focus_dist.mul_spec(height));
        let left = look_from.minus_spec(horizontal.divided_spec(two));
        let corner = left.minus_spec(vertical.divided_spec(two));
        defined_real::<T>(
            {
                &&& two.mul_req(half_height)
                &&& aspect_ratio.mul_req(height)
                &&& look_from.minus_req(look_at)
                &&& look_from.minus_spec(look_at).unit_vector_req()
                &&& v_up.cross_req(w)
                &&& v_up.cross_spec(w).unit_vector_req()
                &&& w.cross_req(u)
                &&& focus_dist.mul_req(width)
                &&& u.scaled_req(focus_dist.mul_spec(width))
                &&& focus_dist.mul_req(height)
                &&& v.scaled_req(focus_dist.mul_spec(height))
                &&& horizontal.divided_req(two)
                &&& look_from.minus_req(horizontal.divided_spec(two))
                &&& vertical.divided_req(two)
                &&& left.minus_req(vertical.divided_spec(two))
                &&& w.scaled_req(focus_dist)
                &&& corner.minus_req(w.scaled_spec(focus_dist))
                &&& aperture.div_req(two)
            },
        )
    }

    /// The camera at `look_from`. Its axes are `u_spec`, `v_spec` and
    /// `w_spec`. What it sees of the plane at the distance `focus_dist` is
    /// `focus_dist` times the viewport wide and high, and lies centred
    /// `focus_dist` before it. Its lens has the radius `aperture / 2`.
    pub open spec fn new_spec(
        look_from: Point3<T>,
        look_at: Point3<T>,
        v_up: Vec3<T>,
        half_height: T,
        aspect_ratio: T,
        aperture: T,
        focus_dist: T,
    ) -> Self {
        let two = lit::<T>(2);
        let height = Self::viewport_height_spec(half_height);
        let width = Self::viewport_width_spec(half_height, aspect_ratio);
        let w = Self::w_spec(look_from, look_at);
        let u = Self::u_spec(look_from, look_at, v_up);
        let v = Self::v_spec(look_from, look_at, v_up);
        let horizontal = u.scaled_spec(focus_dist.mul_spec(width));
        let vertical = v.scaled_spec(focus_dist.mul_spec(height));
        Camera {
            origin: look_from,
            lower_left_corner: look_from.minus_spec(horizontal.divided_spec(two)).minus_spec(
                vertical.divided_spec(two),
            ).minus_spec(w.scaled_spec(focus_dist)),
            horizontal,
            vertical,
            u,
            v,
            lens_radius: aperture.div_spec(two),
        }
    }

    /// The camera at `look_from` that looks at `look_at`, with `v_up` upward.
    /// `half_height` is the tangent of half the vertical angle of view,
    /// `aspect_ratio` the width of the image over its height, `aperture` the
    /// width of the lens, and `focus_dist` the distance at which the image is
    /// sharp.
    pub fn new(
        look_from: Point3<T>,
        look_at: Point3<T>,
        v_up: Vec3<T>,
        half_height: T,
        aspect_ratio: T,
        aperture: T,
        focus_dist: T,
    ) -> (r: Self)
        requires
            Self::new_req(
                look_from,
                look_at,
                v_up,
                half_height,
                aspect_ratio,
                aperture,
                focus_dist,
            ),
        ensures
            exact_real::<T>() ==> r == Self::new_spec(
                look_from,
                look_at,
                v_up,
                half_height,
                aspect_ratio,
                aperture,
                focus_dist,
            ),
    {
        let two: T = number(2);
        let viewport_height = two * half_height;
        let viewport_width = aspect_ratio * viewport_height;

        let w = (look_from - look_at).unit_vector();
        let u = v_up.cross(w).unit_vector();
        let v = w.cross(u);

        let origin = look_from;

        let horizontal = u * (focus_dist * viewport_width);
        let vertical = v * (focus_dist * viewport_height);
        let lower_left_corner = origin - horizontal / two - vertical / two - w * focus_dist;
        let lens_radius = aperture / two;

        Camera { origin, horizontal, vertical, lower_left_corner, u, v, lens_radius }
    }
}

impl<T: Arith> Camera<T> {
    /// How far the ray starts from the middle of the lens, where `disk` is the
    /// point of the disk of radius one that was drawn:
    /// `u (lens_radius disk.x) + v (lens_radius disk.y)`.
    pub open spec fn offset_spec(self, disk: Vec3<T>) -> Vec3<T> {
        let rd = disk.scaled_spec(self.lens_radius);
        self.u.scaled_spec(rd.x).plus_spec(self.v.scaled_spec(rd.y))
    }

    /// The point of the focus plane at `s` of the way from the left to the
    /// right and at `t` of the way from the bottom to the top.
    pub open spec fn target_spec(self, s: T, t: T) -> Point3<T> {
        self.lower_left_corner.plus_spec(self.horizontal.scaled_spec(s)).plus_spec(
            self.vertical.scaled_spec(t),
        )
    }

    pub open spec fn get_ray_through_req(self, s: T, t: T, disk: Vec3<T>) -> bool {
        let rd = disk.scaled_spec(self.lens_radius);
        let offset = self.offset_spec(disk);
        defined::<T>(
            {
                &&& disk.scaled_req(self.lens_radius)
                &&& self.u.scaled_req(rd.x)
                &&& self.v.scaled_req(rd.y)
                &&& self.u.scaled_spec(rd.x).plus_req(self.v.scaled_spec(rd.y))
                &&& self.origin.plus_req(offset)
                &&& self.horizontal.scaled_req(s)
                &&& self.lower_left_corner.plus_req(self.horizontal.scaled_spec(s))
                &&& self.vertical.scaled_req(t)
                &&& self.lower_left_corner.plus_spec(self.horizontal.scaled_spec(s)).plus_req(
                    self.vertical.scaled_spec(t),
                )
                &&& self.target_spec(s, t).minus_req(self.origin)
                &&& self.target_spec(s, t).minus_spec(self.origin).minus_req(offset)
            },
        )
    }

    /// The ray from the point `origin + offset` of the lens to the point
    /// `target_spec(s, t)` of the focus plane.
    pub open spec fn get_ray_through_spec(self, s: T, t: T, disk: Vec3<T>) -> Ray<T> {
        let offset = self.offset_spec(disk);
        Ray {
            origin: self.origin.plus_spec(offset),
            direction: self.target_spec(s, t).minus_spec(self.origin).minus_spec(offset),
        }
    }

    /// The ray for the place `(s, t)` of the image, each from zero to one,
    /// where `disk` is the point of the disk of radius one that was drawn for
    /// the place on the lens.
    pub fn get_ray_through(&self, s: T, t: T, disk: Vec3<T>) -> (r: Ray<T>)
        requires
            self.get_ray_through_req(s, t, disk),
        ensures
            exact::<T>() ==> r == self.get_ray_through_spec(s, t, disk),
    {
        let rd = disk * self.lens_radius;
        let offset = self.u * rd.x + self.v * rd.y;

        let origin = self.origin + offset;
        let direction = self.lower_left_corner + self.horizontal * s + self.vertical * t
            - self.origin - offset;
        Ray::new(origin, direction)
    }

    /// The ray for the place `(s, t)` of the image, each from zero to one,
    /// through a random point of the lens.
    pub fn get_ray<S: Sampler<T>>(&self, s: T, t: T, sampler: &mut S) -> (r: Ray<T>)
        requires
            forall|disk: Vec3<T>| #[trigger] self.get_ray_through_req(s, t, disk),
        ensures
            exact::<T>() ==> exists|disk: Vec3<T>|
                r == #[trigger] self.get_ray_through_spec(s, t, disk),
    {
        let disk = sampler.in_unit_disk();
        self.get_ray_through(s, t, disk)
    }
}

} // verus!

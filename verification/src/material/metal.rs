//! Mirroring surfaces.

use crate::hittable::HitRecord;
use crate::material::Scatter;
use crate::ray::Ray;
use crate::sampler::Sampler;
use crate::scalar::{defined_real, exact, exact_real, lit, lt, number, Arith, Real};
use crate::vec3::{Color, Vec3};
use vstd::prelude::*;

verus! {

/// A mirroring surface, which keeps the share `albedo` of each colour. Its
/// roughness `fuzz` lies between zero and one: zero is a clean mirror.
#[derive(Clone, Copy, Debug, PartialEq)]
pub struct Metal<T> {
    pub albedo: Color<T>,
    pub fuzz: T,
}

impl<T: Arith> Metal<T> {
    /// `fuzz` held between zero and one.
    pub open spec fn fuzz_spec(fuzz: T) -> T {
        if lt(fuzz, lit::<T>(1)) {
            if lt(fuzz, lit::<T>(0)) {
                lit::<T>(0)
            } else {
                fuzz
            }
        } else {
            lit::<T>(1)
        }
    }

    /// The metal with the colour `albedo` and the roughness `fuzz`, which is
    /// brought to zero where it is below, and to one where it is not below
    /// one.
    pub fn new(albedo: Color<T>, fuzz: T) -> (r: Self)
        ensures
            exact::<T>() ==> r == (Metal { albedo, fuzz: Self::fuzz_spec(fuzz) }),
    {
        let zero: T = number(0);
        let one: T = number(1);
        let fuzz = if fuzz < one {
            if fuzz < zero {
                zero
            } else {
                fuzz
            }
        } else {
            one
        };
        Metal { albedo, fuzz }
    }
}

impl<T: Real> Metal<T> {
    /// The direction of `ray_in`, brought to length one and mirrored at the
    /// surface, plus `ball` times the roughness.
    pub open spec fn direction_spec(self, ray_in: Ray<T>, hit: HitRecord<'_, T>, ball: Vec3<T>) -> Vec3<
        T,
    > {
        ray_in.direction.unit_vector_spec().reflect_spec(hit.normal).plus_spec(
            ball.scaled_spec(self.fuzz),
        )
    }

    pub open spec fn scatter_with_req(
        self,
        ray_in: Ray<T>,
        hit: HitRecord<'_, T>,
        ball: Vec3<T>,
    ) -> bool {
        let unit = ray_in.direction.unit_vector_spec();
        let reflected = unit.reflect_spec(hit.normal);
        defined_real::<T>(
            {
                &&& ray_in.direction.unit_vector_req()
                &&& unit.reflect_req(hit.normal)
                &&& ball.scaled_req(self.fuzz)
                &&& reflected.plus_req(ball.scaled_spec(self.fuzz))
                &&& self.direction_spec(ray_in, hit, ball).dot_req(hit.normal)
            },
        )
    }

    /// The ray from the point of the hit along `direction_spec`, and the
    /// albedo, where that direction points away from the surface: its product
    /// with the normal is above zero. Else nothing: the surface swallows the
    /// ray.
    pub open spec fn scatter_with_spec(
        self,
        ray_in: Ray<T>,
        hit: HitRecord<'_, T>,
        ball: Vec3<T>,
    ) -> Option<Scatter<T>> {
        let direction = self.direction_spec(ray_in, hit, ball);
        if lt(lit::<T>(0), direction.dot_spec(hit.normal)) {
            Some(Scatter { ray: Ray { origin: hit.p, direction }, attenuation: self.albedo })
        } else {
            None
        }
    }

    /// The mirrored ray where `ball` is the random point of the ball of
    /// radius one that was drawn.
    pub fn scatter_with(&self, ray_in: Ray<T>, hit: &HitRecord<'_, T>, ball: Vec3<T>) -> (r: Option<
        Scatter<T>,
    >)
        requires
            self.scatter_with_req(ray_in, *hit, ball),
        ensures
            exact_real::<T>() ==> r == self.scatter_with_spec(ray_in, *hit, ball),
            exact_real::<T>() ==> (r is None <==> !lt(
                lit::<T>(0),
                self.direction_spec(ray_in, *hit, ball).dot_spec(hit.normal),
            )),
    {
        let reflected = ray_in.direction.unit_vector().reflect(hit.normal);
        let ray = Ray::new(hit.p, reflected + ball * self.fuzz);
        let attenuation = self.albedo;
        let zero: T = number(0);
        if zero < ray.direction.dot(hit.normal) {
            Some(Scatter { ray, attenuation })
        } else {
            None
        }
    }

    /// Mirrors the ray at the surface, off by a random point of the ball of
    /// radius one times the roughness.
    pub fn scatter<S: Sampler<T>>(
        &self,
        ray_in: Ray<T>,
        hit_record: &HitRecord<'_, T>,
        sampler: &mut S,
    ) -> (r: Option<Scatter<T>>)
        requires
            forall|ball: Vec3<T>| #[trigger] self.scatter_with_req(ray_in, *hit_record, ball),
        ensures
            exact_real::<T>() ==> exists|ball: Vec3<T>|
                r == #[trigger] self.scatter_with_spec(ray_in, *hit_record, ball),
    {
        let ball = sampler.in_unit_sphere();
        self.scatter_with(ray_in, hit_record, ball)
    }
}

} // verus!

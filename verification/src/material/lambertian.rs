//! Matt surfaces.

use crate::hittable::HitRecord;
use crate::material::Scatter;
use crate::ray::Ray;
use crate::sampler::Sampler;
use crate::scalar::{defined, exact, exact_real, Arith, Real};
use crate::vec3::{Color, Vec3};
use vstd::prelude::*;

verus! {

/// A matt surface, which scatters light to all sides and keeps the share
/// `albedo` of each colour.
#[derive(Clone, Copy, Debug, PartialEq)]
pub struct Lambertian<T> {
    pub albedo: Color<T>,
}

impl<T: Arith> Lambertian<T> {
    pub fn new(albedo: Color<T>) -> (r: Self)
        ensures
            r == (Lambertian { albedo }),
    {
        Lambertian { albedo }
    }
}

impl<T: Arith> Lambertian<T> {
    pub open spec fn scatter_with_req(self, hit: HitRecord<'_, T>, unit: Vec3<T>) -> bool {
        defined::<T>(hit.normal.plus_req(unit) && hit.normal.plus_spec(unit).near_zero_req())
    }

    /// The ray from the point of the hit along the normal plus `unit`, or
    /// along the normal alone where that sum is near zero; and the albedo.
    pub open spec fn scatter_with_spec(self, hit: HitRecord<'_, T>, unit: Vec3<T>) -> Scatter<T> {
        let toward = hit.normal.plus_spec(unit);
        Scatter {
            ray: Ray {
                origin: hit.p,
                direction: if toward.near_zero_spec() {
                    hit.normal
                } else {
                    toward
                },
            },
            attenuation: self.albedo,
        }
    }

    /// The scattered ray where `unit` is the random direction that was drawn.
    pub fn scatter_with(&self, hit: &HitRecord<'_, T>, unit: Vec3<T>) -> (r: Scatter<T>)
        requires
            self.scatter_with_req(*hit, unit),
        ensures
            exact::<T>() ==> r == self.scatter_with_spec(*hit, unit),
    {
        let mut scatter_direction = hit.normal + unit;
        if scatter_direction.near_zero() {
            scatter_direction = hit.normal;
        }
        let ray = Ray::new(hit.p, scatter_direction);
        Scatter { ray, attenuation: self.albedo }
    }
}

impl<T: Real> Lambertian<T> {
    /// Scatters the light of a hit along the normal plus a random direction.
    /// A matt surface swallows no ray.
    pub fn scatter<S: Sampler<T>>(
        &self,
        _ray_in: Ray<T>,
        hit_record: &HitRecord<'_, T>,
        sampler: &mut S,
    ) -> (r: Option<Scatter<T>>)
        requires
            forall|p: Vec3<T>| #[trigger] p.unit_vector_req(),
            forall|unit: Vec3<T>| #[trigger] self.scatter_with_req(*hit_record, unit),
        ensures
            r is Some,
            exact_real::<T>() ==> exists|unit: Vec3<T>|
                r == Some(#[trigger] self.scatter_with_spec(*hit_record, unit)),
    {
        let unit = Vec3::random_unit_vector(sampler);
        Some(self.scatter_with(hit_record, unit))
    }
}

} // verus!

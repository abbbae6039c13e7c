//! Materials: what a surface does with the light that reaches it.

use crate::hittable::HitRecord;
use crate::ray::Ray;
use crate::sampler::Sampler;
use crate::scalar::{exact_real, Real};
use crate::vec3::{Color, Vec3};
use vstd::prelude::*;

pub mod dielectric;
pub mod lambertian;
pub mod metal;

use dielectric::Dielectric;
use lambertian::Lambertian;
use metal::Metal;

verus! {

/// A ray that left a surface, and the share of each colour that the surface
/// let through.
#[derive(Clone, Copy, Debug, PartialEq)]
pub struct Scatter<T> {
    pub ray: Ray<T>,
    pub attenuation: Color<T>,
}

/// The material of a surface: matt, mirroring or clear.
#[derive(Clone, Copy, Debug, PartialEq)]
pub enum Material<T> {
    Lambertian(Lambertian<T>),
    Metal(Metal<T>),
    Dielectric(Dielectric<T>),
}

impl<T: Real> Material<T> {
    pub open spec fn scatter_with_req(
        self,
        ray_in: Ray<T>,
        hit: HitRecord<'_, T>,
        point: Vec3<T>,
        coin: T,
    ) -> bool {
        match self {
            Material::Lambertian(matt) => matt.scatter_with_req(hit, point),
            Material::Metal(metal) => metal.scatter_with_req(ray_in, hit, point),
            Material::Dielectric(glass) => glass.scatter_with_req(ray_in, hit, coin),
        }
    }

    /// What the material makes of `ray_in` at `hit`, where `point` and `coin`
    /// are what was drawn: a matt surface takes `point` as its random
    /// direction, a mirroring one as its random point of the ball, a clear one
    /// takes `coin`.
    pub open spec fn scatter_with_spec(
        self,
        ray_in: Ray<T>,
        hit: HitRecord<'_, T>,
        point: Vec3<T>,
        coin: T,
    ) -> Option<Scatter<T>> {
        match self {
            Material::Lambertian(matt) => Some(matt.scatter_with_spec(hit, point)),
            Material::Metal(metal) => metal.scatter_with_spec(ray_in, hit, point),
            Material::Dielectric(glass) => Some(glass.scatter_with_spec(ray_in, hit, coin)),
        }
    }

    /// The scattered ray where `point` and `coin` are what was drawn, or
    /// nothing where the surface swallows the ray.
    pub fn scatter_with(
        &self,
        ray_in: Ray<T>,
        hit: &HitRecord<'_, T>,
        point: Vec3<T>,
        coin: T,
    ) -> (r: Option<Scatter<T>>)
        requires
            self.scatter_with_req(ray_in, *hit, point, coin),
        ensures
            exact_real::<T>() ==> r == self.scatter_with_spec(ray_in, *hit, point, coin),
    {
        match self {
            Material::Lambertian(matt) => Some(matt.scatter_with(hit, point)),
            Material::Metal(metal) => metal.scatter_with(ray_in, hit, point),
            Material::Dielectric(glass) => Some(glass.scatter_with(ray_in, hit, coin)),
        }
    }

    /// The ray that leaves the surface and the colour it keeps, or nothing
    /// where the surface swallows the ray.
    pub fn scatter<S: Sampler<T>>(
        &self,
        ray_in: Ray<T>,
        hit_record: &HitRecord<'_, T>,
        sampler: &mut S,
    ) -> (r: Option<Scatter<T>>)
        requires
            forall|point: Vec3<T>, coin: T| #[trigger]
                self.scatter_with_req(ray_in, *hit_record, point, coin),
            self is Lambertian ==> forall|p: Vec3<T>| #[trigger] p.unit_vector_req(),
        ensures
            exact_real::<T>() ==> exists|point: Vec3<T>, coin: T|
                r == #[trigger] self.scatter_with_spec(ray_in, *hit_record, point, coin),
            !(self is Metal) ==> r is Some,
    {
        match self {
            Material::Lambertian(matt) => {
                proof {
                    assert forall|unit: Vec3<T>| #[trigger]
                        matt.scatter_with_req(*hit_record, unit) by {
                        assert(self.scatter_with_req(ray_in, *hit_record, unit, unit.x));
                    }
                }
                let r = matt.scatter(ray_in, hit_record, sampler);
                proof {
                    if exact_real::<T>() {
                        let unit = choose|unit: Vec3<T>|
                            r == Some(#[trigger] matt.scatter_with_spec(*hit_record, unit));
                        assert(r == self.scatter_with_spec(ray_in, *hit_record, unit, unit.x));
                    }
                }
                r
            },
            Material::Metal(metal) => {
                proof {
                    assert forall|ball: Vec3<T>| #[trigger]
                        metal.scatter_with_req(ray_in, *hit_record, ball) by {
                        assert(self.scatter_with_req(ray_in, *hit_record, ball, ball.x));
                    }
                }
                let r = metal.scatter(ray_in, hit_record, sampler);
                proof {
                    if exact_real::<T>() {
                        let ball = choose|ball: Vec3<T>|
                            r == #[trigger] metal.scatter_with_spec(ray_in, *hit_record, ball);
                        assert(r == self.scatter_with_spec(ray_in, *hit_record, ball, ball.x));
                    }
                }
                r
            },
            Material::Dielectric(glass) => {
                proof {
                    assert forall|coin: T| #[trigger]
                        glass.scatter_with_req(ray_in, *hit_record, coin) by {
                        assert(self.scatter_with_req(ray_in, *hit_record, ray_in.origin, coin));
                    }
                }
                let r = glass.scatter(ray_in, hit_record, sampler);
                proof {
                    if exact_real::<T>() {
                        let coin = choose|coin: T|
                            r == Some(
                                #[trigger] glass.scatter_with_spec(ray_in, *hit_record, coin),
                            );
                        assert(r == self.scatter_with_spec(
                            ray_in,
                            *hit_record,
                            ray_in.origin,
                            coin,
                        ));
                    }
                }
                r
            },
        }
    }
}

} // verus!

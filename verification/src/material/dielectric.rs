//! Clear surfaces.

use crate::hittable::HitRecord;
use crate::material::Scatter;
use crate::ray::Ray;
use crate::sampler::Sampler;
use crate::scalar::{
    defined, defined_real, exact, exact_real, floor_sqrt, is_floor_sqrt, lemma_floor_sqrt,
    lemma_floor_sqrt_unique, lit, lt, number, smaller, smaller_spec, Arith, Real,
};
use crate::vec3::{lemma_refract_straight, Vec3};
use core::ops::Neg;
use vstd::prelude::*;
use vstd::std_specs::ops::{AddSpec, DivSpec, MulSpec, NegSpec, SubSpec};

verus! {

/// A clear material such as glass, with the index of refraction `ir`.
#[derive(Clone, Copy, Debug, PartialEq)]
pub struct Dielectric<T> {
    pub ir: T,
}

impl<T: Arith> Dielectric<T> {
    pub fn new(ir: T) -> (r: Self)
        ensures
            r == (Dielectric { ir }),
    {
        Dielectric { ir }
    }
}

impl<T: Arith> Dielectric<T> {
    /// The share that is mirrored when light meets the surface head-on:
    /// `((1 - ref_idx) / (1 + ref_idx))^2`.
    pub open spec fn head_on_spec(ref_idx: T) -> T {
        let one = lit::<T>(1);
        let r0 = one.sub_spec(ref_idx).div_spec(one.add_spec(ref_idx));
        r0.mul_spec(r0)
    }

    /// `x^5`, as `((x x) (x x)) x`.
    pub open spec fn fifth_power_spec(x: T) -> T {
        let square = x.mul_spec(x);
        square.mul_spec(square).mul_spec(x)
    }

    pub open spec fn reflectance_req(cosine: T, ref_idx: T) -> bool {
        let one = lit::<T>(1);
        let r0 = one.sub_spec(ref_idx).div_spec(one.add_spec(ref_idx));
        let base = one.sub_spec(cosine);
        let square = base.mul_spec(base);
        defined::<T>(
            {
                &&& one.sub_req(ref_idx)
                &&& one.add_req(ref_idx)
                &&& one.sub_spec(ref_idx).div_req(one.add_spec(ref_idx))
                &&& r0.mul_req(r0)
                &&& one.sub_req(cosine)
                &&& base.mul_req(base)
                &&& square.mul_req(square)
                &&& square.mul_spec(square).mul_req(base)
                &&& one.sub_req(Self::head_on_spec(ref_idx))
                &&& one.sub_spec(Self::head_on_spec(ref_idx)).mul_req(Self::fifth_power_spec(base))
                &&& Self::head_on_spec(ref_idx).add_req(
                    one.sub_spec(Self::head_on_spec(ref_idx)).mul_spec(
                        Self::fifth_power_spec(base),
                    ),
                )
            },
        )
    }

    /// Schlick's approximation: `r0 + (1 - r0) (1 - cosine)^5`, where `r0` is
    /// the share mirrored head-on.
    pub open spec fn reflectance_spec(cosine: T, ref_idx: T) -> T {
        let one = lit::<T>(1);
        let r0 = Self::head_on_spec(ref_idx);
        r0.add_spec(one.sub_spec(r0).mul_spec(Self::fifth_power_spec(one.sub_spec(cosine))))
    }

    /// The share of the light that a clear surface mirrors, for light that
    /// meets it at the angle with the cosine `cosine`, where `ref_idx` is the
    /// ratio of the refractive indices.
    pub fn reflectance(cosine: T, ref_idx: T) -> (r: T)
        requires
            Self::reflectance_req(cosine, ref_idx),
        ensures
            exact::<T>() ==> r == Self::reflectance_spec(cosine, ref_idx),
    {
        let one: T = number(1);
        let r0 = (one - ref_idx) / (one + ref_idx);
        let r0 = r0 * r0;
        let base = one - cosine;
        let square = base * base;
        let fifth = square * square * base;
        r0 + (one - r0) * fifth
    }
}

impl<T: Real> Dielectric<T> {
    /// The ratio of the refractive indices on the way of the ray: `1 / ir` on
    /// the way in, `ir` on the way out.
    pub open spec fn ratio_spec(self, hit: HitRecord<'_, T>) -> T {
        if hit.front_face {
            lit::<T>(1).div_spec(self.ir)
        } else {
            self.ir
        }
    }

    /// The cosine of the angle at which the ray meets the surface, held at
    /// most at one: the smaller of `-(unit . normal)` and one.
    pub open spec fn cos_theta_spec(ray_in: Ray<T>, hit: HitRecord<'_, T>) -> T {
        smaller_spec(
            ray_in.direction.unit_vector_spec().dot_spec(hit.normal).neg_spec(),
            lit::<T>(1),
        )
    }

    /// The sine of that angle: `sqrt(1 - cos^2)`.
    pub open spec fn sin_theta_spec(ray_in: Ray<T>, hit: HitRecord<'_, T>) -> T {
        let cos_theta = Self::cos_theta_spec(ray_in, hit);
        lit::<T>(1).sub_spec(cos_theta.mul_spec(cos_theta)).sqrt_spec()
    }

    /// Whether the ray is mirrored: either no refracted ray exists, because
    /// the ratio times the sine is above one, or the mirrored share is above
    /// `coin`.
    pub open spec fn reflects_spec(self, ray_in: Ray<T>, hit: HitRecord<'_, T>, coin: T) -> bool {
        let ratio = self.ratio_spec(hit);
        ||| lt(lit::<T>(1), ratio.mul_spec(Self::sin_theta_spec(ray_in, hit)))
        ||| lt(coin, Dielectric::<T>::reflectance_spec(Self::cos_theta_spec(ray_in, hit), ratio))
    }

    pub open spec fn scatter_with_req(
        self,
        ray_in: Ray<T>,
        hit: HitRecord<'_, T>,
        coin: T,
    ) -> bool {
        let one = lit::<T>(1);
        let ratio = self.ratio_spec(hit);
        let unit = ray_in.direction.unit_vector_spec();
        let cos_theta = Self::cos_theta_spec(ray_in, hit);
        defined_real::<T>(
            {
                &&& hit.front_face ==> one.div_req(self.ir)
                &&& ray_in.direction.unit_vector_req()
                &&& unit.dot_req(hit.normal)
                &&& unit.dot_spec(hit.normal).neg_req()
                &&& cos_theta.mul_req(cos_theta)
                &&& one.sub_req(cos_theta.mul_spec(cos_theta))
                &&& one.sub_spec(cos_theta.mul_spec(cos_theta)).sqrt_req()
                &&& ratio.mul_req(Self::sin_theta_spec(ray_in, hit))
                &&& Dielectric::<T>::reflectance_req(cos_theta, ratio)
                &&& if self.reflects_spec(ray_in, hit, coin) {
                    unit.reflect_req(hit.normal)
                } else {
                    unit.refract_req(hit.normal, ratio)
                }
            },
        )
    }

    /// The ray from the point of the hit along the direction of `ray_in`,
    /// brought to length one and then mirrored where `reflects_spec` says so,
    /// else refracted. Glass takes no colour away.
    pub open spec fn scatter_with_spec(
        self,
        ray_in: Ray<T>,
        hit: HitRecord<'_, T>,
        coin: T,
    ) -> Scatter<T> {
        let one = lit::<T>(1);
        let unit = ray_in.direction.unit_vector_spec();
        Scatter {
            ray: Ray {
                origin: hit.p,
                direction: if self.reflects_spec(ray_in, hit, coin) {
                    unit.reflect_spec(hit.normal)
                } else {
                    unit.refract_spec(hit.normal, self.ratio_spec(hit))
                },
            },
            attenuation: Vec3 { x: one, y: one, z: one },
        }
    }

    /// The ray that leaves the surface where `coin` is the random scalar from
    /// zero to one that was drawn.
    pub fn scatter_with(&self, ray_in: Ray<T>, hit: &HitRecord<'_, T>, coin: T) -> (r: Scatter<T>)
        requires
            self.scatter_with_req(ray_in, *hit, coin),
        ensures
            exact_real::<T>() ==> r == self.scatter_with_spec(ray_in, *hit, coin),
    {
        let one: T = number(1);
        let attenuation = Vec3::new(one, one, one);
        let refraction_ratio = if hit.front_face {
            one / self.ir
        } else {
            self.ir
        };
        let unit_direction = ray_in.direction.unit_vector();
        let cos_theta = smaller(unit_direction.dot(hit.normal).neg(), one);
        let sin_theta = (one - cos_theta * cos_theta).sqrt();
        let cannot_refract = one < refraction_ratio * sin_theta;
        let schlick_approx = coin < Dielectric::<T>::reflectance(cos_theta, refraction_ratio);
        let direction = if cannot_refract || schlick_approx {
            unit_direction.reflect(hit.normal)
        } else {
            unit_direction.refract(hit.normal, refraction_ratio)
        };
        let ray = Ray::new(hit.p, direction);
        Scatter { ray, attenuation }
    }

    /// Mirrors or refracts the ray, by a random scalar from zero to one that
    /// is held against the mirrored share. A clear surface swallows no ray.
    pub fn scatter<S: Sampler<T>>(
        &self,
        ray_in: Ray<T>,
        hit_record: &HitRecord<'_, T>,
        sampler: &mut S,
    ) -> (r: Option<Scatter<T>>)
        requires
            forall|coin: T| #[trigger] self.scatter_with_req(ray_in, *hit_record, coin),
        ensures
            r is Some,
            exact_real::<T>() ==> exists|coin: T|
                r == Some(#[trigger] self.scatter_with_spec(ray_in, *hit_record, coin)),
    {
        let zero: T = number(0);
        let one: T = number(1);
        let coin = sampler.uniform(zero, one);
        Some(self.scatter_with(ray_in, hit_record, coin))
    }
}

/// Glass of the index one bends nothing: on the integers, a ray with a
/// direction of length one that meets a surface against a normal of length
/// one, and for which the coin does not choose the mirror, goes on from the
/// point of the hit along its own direction.
pub proof fn lemma_index_one_goes_straight(
    glass: Dielectric<i64>,
    ray_in: Ray<i64>,
    hit: HitRecord<'_, i64>,
    coin: i64,
)
    requires
        glass.ir == 1,
        glass.scatter_with_req(ray_in, hit, coin),
        !glass.reflects_spec(ray_in, hit, coin),
        ray_in.direction.dot_req(ray_in.direction),
        ray_in.direction.dot_spec(ray_in.direction) == 1,
        hit.normal.dot_req(hit.normal),
        hit.normal.dot_spec(hit.normal) == 1,
        ray_in.direction.dot_req(hit.normal),
        ray_in.direction.dot_spec(hit.normal) <= 0,
    ensures
        glass.scatter_with_spec(ray_in, hit, coin).ray == (Ray {
            origin: hit.p,
            direction: ray_in.direction,
        }),
{
    let d = ray_in.direction;
    assert(d.length_squared_spec() == 1);
    assert(is_floor_sqrt(1, 1));
    lemma_floor_sqrt(1);
    lemma_floor_sqrt_unique(1, 1, floor_sqrt(1));
    assert(d.length_spec() == 1);
    assert(1int / 1int == 1) by (nonlinear_arith);
    assert(lit::<i64>(1).div_spec(1i64) == 1);
    let k = lit::<i64>(1).div_spec(d.length_spec());
    assert(k == 1);
    assert(d.x * k == d.x && d.y * k == d.y && d.z * k == d.z) by (nonlinear_arith)
        requires
            k == 1,
    ;
    let unit = d.unit_vector_spec();
    assert(unit.x == d.x && unit.y == d.y && unit.z == d.z);
    assert(unit == d);
    assert(glass.ratio_spec(hit) == 1);
    lemma_refract_straight(d, hit.normal);
}

} // verus!

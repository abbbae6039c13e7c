//! Rays: half-lines from a point along a direction.

use crate::scalar::{defined, exact, lit, Arith};
use crate::vec3::{Point3, Vec3};
use vstd::prelude::*;
use vstd::std_specs::ops::{AddSpec, MulSpec};

verus! {

/// The points `origin + t direction`. The direction need not have length one.
#[derive(Clone, Copy, Debug, PartialEq)]
pub struct Ray<T> {
    pub origin: Point3<T>,
    pub direction: Vec3<T>,
}

impl<T: Arith> Ray<T> {
    /// The ray from `origin` along `direction`.
    pub fn new(origin: Point3<T>, direction: Vec3<T>) -> (r: Self)
        ensures
            r == (Ray { origin, direction }),
    {
        Ray { origin, direction }
    }

    pub open spec fn at_req(self, t: T) -> bool {
        defined::<T>(
            self.direction.scaled_req(t) && self.origin.plus_req(self.direction.scaled_spec(t)),
        )
    }

    /// `origin + t direction`.
    pub open spec fn at_spec(self, t: T) -> Point3<T> {
        self.origin.plus_spec(self.direction.scaled_spec(t))
    }

    /// The point of the ray at the parameter `t`.
    pub fn at(&self, t: T) -> (r: Point3<T>)
        requires
            self.at_req(t),
        ensures
            exact::<T>() ==> r == self.at_spec(t),
    {
        self.origin + self.direction * t
    }
}

/// A ray starts at its origin: at the parameter zero it is at `origin`, for
/// every scalar in which anything times zero is zero and zero added to
/// anything leaves it as it is.
pub proof fn lemma_at_zero<T: Arith>(ray: Ray<T>)
    requires
        forall|a: T| #[trigger] a.mul_spec(lit::<T>(0)) == lit::<T>(0),
        forall|a: T| #[trigger] a.add_spec(lit::<T>(0)) == a,
    ensures
        ray.at_spec(lit::<T>(0)) == ray.origin,
{
}

/// On the integers a ray is affine in its parameter: where `at` is defined,
/// each coordinate of the point is that of the origin plus `t` times that of
/// the direction. At `t = 0` the point is the origin.
pub proof fn lemma_at_affine(ray: Ray<i64>, t: i64)
    requires
        ray.at_req(t),
    ensures
        ray.at_spec(t).x == ray.origin.x + t * ray.direction.x,
        ray.at_spec(t).y == ray.origin.y + t * ray.direction.y,
        ray.at_spec(t).z == ray.origin.z + t * ray.direction.z,
        t == 0 ==> ray.at_spec(t) == ray.origin,
{
    assert(ray.direction.x * t == t * ray.direction.x) by (nonlinear_arith);
    assert(ray.direction.y * t == t * ray.direction.y) by (nonlinear_arith);
    assert(ray.direction.z * t == t * ray.direction.z) by (nonlinear_arith);
}

} // verus!

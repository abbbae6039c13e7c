//! Spheres.

use crate::hittable::{
    lemma_scene_hit_any_order, narrowed, nearest_spec, same_parameter, steady, within, HitRecord,
    Hittable,
};
use crate::material::Material;
use crate::ray::Ray;
use crate::scalar::{
    defined_real, exact_real, floor_sqrt, is_floor_sqrt, le, lemma_floor_sqrt,
    lemma_floor_sqrt_unique, lemma_integers_linear, lemma_le, linear, lit, lt, number, Arith,
    Real,
};
use crate::vec3::{Point3, Vec3};
use core::ops::Neg;
use vstd::prelude::*;
use vstd::std_specs::ops::{AddSpec, DivSpec, MulSpec, NegSpec, SubSpec};

verus! {

/// The sphere round `center`. A radius below zero gives the same surface with
/// its normals turned inward, as the inner side of a hollow shell needs them.
#[derive(Clone, Copy, Debug, PartialEq)]
pub struct Sphere<T> {
    pub center: Point3<T>,
    pub radius: T,
    pub material: Material<T>,
}

impl<T: Arith> Sphere<T> {
    pub fn new(center: Point3<T>, radius: T, material: Material<T>) -> (r: Self)
        ensures
            r == (Sphere { center, radius, material }),
    {
        Sphere { center, radius, material }
    }
}

impl<T: Real> Sphere<T> {
    /// From the centre to the origin of `ray`.
    pub open spec fn offset_spec(self, ray: Ray<T>) -> Vec3<T> {
        ray.origin.minus_spec(self.center)
    }

    /// The squared length of the direction of `ray`: the coefficient `a` of
    /// the equation `|origin + t direction - center|^2 = radius^2` in `t`.
    pub open spec fn a_spec(ray: Ray<T>) -> T {
        ray.direction.length_squared_spec()
    }

    /// Half the coefficient `b` of that equation: the offset times the
    /// direction.
    pub open spec fn half_b_spec(self, ray: Ray<T>) -> T {
        self.offset_spec(ray).dot_spec(ray.direction)
    }

    /// The coefficient `c` of that equation: the squared length of the offset
    /// less the squared radius.
    pub open spec fn c_spec(self, ray: Ray<T>) -> T {
        self.offset_spec(ray).length_squared_spec().sub_spec(self.radius.mul_spec(self.radius))
    }

    /// `half_b^2 - a c`: below zero where the line of the ray misses the
    /// sphere.
    pub open spec fn discriminant_spec(self, ray: Ray<T>) -> T {
        let half_b = self.half_b_spec(ray);
        half_b.mul_spec(half_b).sub_spec(Self::a_spec(ray).mul_spec(self.c_spec(ray)))
    }

    /// The smaller root, `(-half_b - sqrt(discriminant)) / a`.
    pub open spec fn near_root_spec(self, ray: Ray<T>) -> T {
        self.half_b_spec(ray).neg_spec().sub_spec(self.discriminant_spec(ray).sqrt_spec()).div_spec(
            Self::a_spec(ray),
        )
    }

    /// The larger root, `(-half_b + sqrt(discriminant)) / a`.
    pub open spec fn far_root_spec(self, ray: Ray<T>) -> T {
        self.half_b_spec(ray).neg_spec().add_spec(self.discriminant_spec(ray).sqrt_spec()).div_spec(
            Self::a_spec(ray),
        )
    }

    /// The outward normal at the point `p` of the sphere: from the centre to
    /// `p`, divided by the radius, whose sign it takes.
    pub open spec fn outward_normal_spec(self, p: Point3<T>) -> Vec3<T> {
        p.minus_spec(self.center).divided_spec(self.radius)
    }

    pub open spec fn record_at_req(self, ray: Ray<T>, t: T) -> bool {
        let p = ray.at_spec(t);
        defined_real::<T>(
            {
                &&& ray.at_req(t)
                &&& p.minus_req(self.center)
                &&& p.minus_spec(self.center).divided_req(self.radius)
                &&& HitRecord::build_with_face_normal_req(ray, self.outward_normal_spec(p))
            },
        )
    }

    /// The record of the hit of `ray` at the parameter `t`.
    pub open spec fn record_at_spec(&self, ray: Ray<T>, t: T) -> HitRecord<'_, T> {
        let p = ray.at_spec(t);
        HitRecord::build_with_face_normal_spec(
            ray,
            self.outward_normal_spec(p),
            &self.material,
            p,
            t,
        )
    }

    /// The record of the hit of `ray` at the parameter `t`, which the caller
    /// found to be a root.
    pub fn record_at(&self, ray: &Ray<T>, t: T) -> (r: HitRecord<'_, T>)
        requires
            self.record_at_req(*ray, t),
        ensures
            exact_real::<T>() ==> r == self.record_at_spec(*ray, t),
            r.t == t,
    {
        let p = ray.at(t);
        let outward_normal = (p - self.center) / self.radius;
        HitRecord::build_with_face_normal(*ray, outward_normal, &self.material, p, t)
    }

    pub open spec fn discriminant_req(self, ray: Ray<T>) -> bool {
        let offset = self.offset_spec(ray);
        let half_b = self.half_b_spec(ray);
        defined_real::<T>(
            {
                &&& ray.origin.minus_req(self.center)
                &&& ray.direction.length_squared_req()
                &&& offset.dot_req(ray.direction)
                &&& offset.length_squared_req()
                &&& self.radius.mul_req(self.radius)
                &&& offset.length_squared_spec().sub_req(self.radius.mul_spec(self.radius))
                &&& half_b.mul_req(half_b)
                &&& Self::a_spec(ray).mul_req(self.c_spec(ray))
                &&& half_b.mul_spec(half_b).sub_req(Self::a_spec(ray).mul_spec(self.c_spec(ray)))
            },
        )
    }

    pub open spec fn roots_req(self, ray: Ray<T>, t_min: T, t_max: T) -> bool {
        let half_b = self.half_b_spec(ray);
        let root = self.discriminant_spec(ray).sqrt_spec();
        let near = self.near_root_spec(ray);
        let far = self.far_root_spec(ray);
        defined_real::<T>(
            {
                &&& self.discriminant_spec(ray).sqrt_req()
                &&& half_b.neg_req()
                &&& half_b.neg_spec().sub_req(root)
                &&& half_b.neg_spec().sub_spec(root).div_req(Self::a_spec(ray))
                &&& if within(near, t_min, t_max) {
                    self.record_at_req(ray, near)
                } else {
                    &&& half_b.neg_spec().add_req(root)
                    &&& half_b.neg_spec().add_spec(root).div_req(Self::a_spec(ray))
                    &&& within(far, t_min, t_max) ==> self.record_at_req(ray, far)
                }
            },
        )
    }
}

impl<T: Real> Hittable<T> for Sphere<T> {
    open spec fn obeys_hit_spec() -> bool {
        exact_real::<T>()
    }

    open spec fn hit_req(&self, ray: Ray<T>, t_min: T, t_max: T) -> bool {
        defined_real::<T>(
            {
                &&& self.discriminant_req(ray)
                &&& !lt(self.discriminant_spec(ray), lit::<T>(0)) ==> self.roots_req(
                    ray,
                    t_min,
                    t_max,
                )
            },
        )
    }

    /// No hit where the discriminant is below zero. Else the hit at the
    /// smaller root where that lies above `t_min` and not above `t_max`, else
    /// the hit at the larger root where that does, else none.
    open spec fn hit_spec(&self, ray: Ray<T>, t_min: T, t_max: T) -> Option<HitRecord<'_, T>> {
        let near = self.near_root_spec(ray);
        let far = self.far_root_spec(ray);
        if lt(self.discriminant_spec(ray), lit::<T>(0)) {
            None
        } else if within(near, t_min, t_max) {
            Some(self.record_at_spec(ray, near))
        } else if within(far, t_min, t_max) {
            Some(self.record_at_spec(ray, far))
        } else {
            None
        }
    }

    /// Where `ray` meets the sphere first at a parameter above `t_min` and
    /// not above `t_max`, if it does.
    fn hit(&self, ray: &Ray<T>, t_min: T, t_max: T) -> (r: Option<HitRecord<'_, T>>)
        ensures
            exact_real::<T>() ==> r == self.hit_spec(*ray, t_min, t_max),
    {
        let oc = ray.origin - self.center;
        let a = ray.direction.length_squared();
        let half_b = oc.dot(ray.direction);
        let c = oc.length_squared() - self.radius * self.radius;
        let discriminant = half_b * half_b - a * c;
        let zero: T = number(0);
        if discriminant < zero {
            return None;
        }
        let sqrtd = discriminant.sqrt();
        let near = (half_b.neg() - sqrtd) / a;
        if t_min < near && near <= t_max {
            return Some(self.record_at(ray, near));
        }
        let far = (half_b.neg() + sqrtd) / a;
        if t_min < far && far <= t_max {
            return Some(self.record_at(ray, far));
        }
        None
    }
}

/// A ray whose line passes the sphere by meets it nowhere: where the
/// discriminant is below zero there is no hit, whatever the bounds.
pub proof fn lemma_sphere_miss<T: Real>(sphere: Sphere<T>, ray: Ray<T>, t_min: T, t_max: T)
    requires
        lt(sphere.discriminant_spec(ray), lit::<T>(0)),
    ensures
        sphere.hit_spec(ray, t_min, t_max) is None,
{
}

/// A hit of a sphere lies at one of the two roots, and within the bounds that
/// were asked for; it lies at the larger root only where the smaller one lies
/// outside them.
pub proof fn lemma_sphere_hit_at_root<T: Real>(
    sphere: Sphere<T>,
    ray: Ray<T>,
    t_min: T,
    t_max: T,
)
    ensures
        sphere.hit_spec(ray, t_min, t_max) matches Some(h) ==> within(h.t, t_min, t_max),
        sphere.hit_spec(ray, t_min, t_max) matches Some(h) ==> h.t == sphere.near_root_spec(ray)
            || h.t == sphere.far_root_spec(ray),
        sphere.hit_spec(ray, t_min, t_max) matches Some(h) ==> (h.t != sphere.near_root_spec(ray)
            ==> !within(sphere.near_root_spec(ray), t_min, t_max)),
        sphere.hit_spec(ray, t_min, t_max) matches Some(h) ==> h.p == ray.at_spec(h.t)
            && h.material == &sphere.material,
{
}

/// A sphere answers steadily where the order of the scalar is linear and the
/// smaller root is not above the larger one.
pub proof fn lemma_sphere_steady<T: Real>(sphere: Sphere<T>, ray: Ray<T>, t_min: T)
    requires
        linear::<T>(),
        lt(sphere.discriminant_spec(ray), lit::<T>(0)) || le(
            sphere.near_root_spec(ray),
            sphere.far_root_spec(ray),
        ),
    ensures
        steady(sphere, ray, t_min),
{
    let near_root = sphere.near_root_spec(ray);
    let far_root = sphere.far_root_spec(ray);
    assert forall|far: T, near: T|
        #![trigger sphere.hit_spec(ray, t_min, near), sphere.hit_spec(ray, t_min, far)]
        le(near, far) implies sphere.hit_spec(ray, t_min, near) == narrowed(
        sphere.hit_spec(ray, t_min, far),
        near,
    ) by {
        if !lt(sphere.discriminant_spec(ray), lit::<T>(0)) {
            lemma_le(near_root, near, far);
            lemma_le(far_root, near, far);
            lemma_le(near_root, far_root, near);
            lemma_le(near_root, far_root, far);
        }
    }
}

/// A ray that is aimed at the centre of a sphere from outside meets it one
/// radius before the centre: on the integers, for a direction of length one
/// and a centre at the parameter `distance` of the ray, the hit lies at
/// `distance - radius`, where that lies within the bounds.
pub proof fn lemma_sphere_head_on(
    sphere: Sphere<i64>,
    ray: Ray<i64>,
    distance: i64,
    t_min: i64,
    t_max: i64,
)
    requires
        sphere.hit_req(ray, t_min, t_max),
        ray.direction.dot_req(ray.direction),
        ray.direction.dot_spec(ray.direction) == 1,
        ray.at_req(distance),
        ray.at_spec(distance) == sphere.center,
        0 <= sphere.radius < distance,
        t_min < distance - sphere.radius <= t_max,
    ensures
        sphere.hit_spec(ray, t_min, t_max) matches Some(h) && h.t == distance - sphere.radius,
{
    let e = ray.direction;
    let d: int = distance as int;
    let r: int = sphere.radius as int;
    let oc = sphere.offset_spec(ray);
    assert(e.x * e.x + e.y * e.y + e.z * e.z == 1);
    assert(sphere.center.x == ray.origin.x + e.x * d);
    assert(sphere.center.y == ray.origin.y + e.y * d);
    assert(sphere.center.z == ray.origin.z + e.z * d);
    assert(oc.x == -(e.x * d) && oc.y == -(e.y * d) && oc.z == -(e.z * d));
    assert(Sphere::<i64>::a_spec(ray) == 1);
    assert(oc.x * e.x + oc.y * e.y + oc.z * e.z == -d) by (nonlinear_arith)
        requires
            oc.x == -(e.x * d) && oc.y == -(e.y * d) && oc.z == -(e.z * d),
            e.x * e.x + e.y * e.y + e.z * e.z == 1,
    ;
    assert(sphere.half_b_spec(ray) == -d);
    assert(oc.x * oc.x + oc.y * oc.y + oc.z * oc.z == d * d) by (nonlinear_arith)
        requires
            oc.x == -(e.x * d) && oc.y == -(e.y * d) && oc.z == -(e.z * d),
            e.x * e.x + e.y * e.y + e.z * e.z == 1,
    ;
    assert(oc.length_squared_spec() == d * d);
    assert(sphere.c_spec(ray) == d * d - r * r);
    assert((-d) * (-d) - 1 * (d * d - r * r) == r * r) by (nonlinear_arith);
    assert(sphere.discriminant_spec(ray) == r * r);
    assert(0 <= r * r) by (nonlinear_arith)
        requires
            0 <= r,
    ;
    assert(is_floor_sqrt(r * r, r)) by (nonlinear_arith)
        requires
            0 <= r,
    ;
    lemma_floor_sqrt(r * r);
    lemma_floor_sqrt_unique(r * r, r, floor_sqrt(r * r));
    assert(sphere.discriminant_spec(ray).sqrt_spec() == r);
    assert(sphere.near_root_spec(ray) == d - r);
}

/// A ray from the centre of a sphere meets it once, from behind: on the
/// integers, for a direction of length one and bounds that hold the radius but
/// nothing below zero, the hit lies at the radius and is no front face, and
/// past it there is no other.
pub proof fn lemma_sphere_from_inside(sphere: Sphere<i64>, ray: Ray<i64>, t_min: i64, t_max: i64)
    requires
        sphere.hit_req(ray, t_min, t_max),
        ray.direction.dot_req(ray.direction),
        ray.direction.dot_spec(ray.direction) == 1,
        ray.origin == sphere.center,
        0 <= t_min < sphere.radius <= t_max,
    ensures
        sphere.hit_spec(ray, t_min, t_max) matches Some(h) && h.t == sphere.radius
            && !h.front_face,
        sphere.hit_spec(ray, sphere.radius, t_max) is None,
{
    let e = ray.direction;
    let r: int = sphere.radius as int;
    let oc = sphere.offset_spec(ray);
    assert(e.x * e.x + e.y * e.y + e.z * e.z == 1);
    assert(oc.x == 0 && oc.y == 0 && oc.z == 0);
    assert(Sphere::<i64>::a_spec(ray) == 1);
    assert(sphere.half_b_spec(ray) == 0);
    assert(oc.length_squared_spec() == 0);
    assert(sphere.c_spec(ray) == -(r * r));
    assert(sphere.discriminant_spec(ray) == r * r);
    assert(0 <= r * r) by (nonlinear_arith)
        requires
            0 <= r,
    ;
    assert(is_floor_sqrt(r * r, r)) by (nonlinear_arith)
        requires
            0 <= r,
    ;
    lemma_floor_sqrt(r * r);
    lemma_floor_sqrt_unique(r * r, r, floor_sqrt(r * r));
    assert(sphere.discriminant_spec(ray).sqrt_spec() == r);
    assert(sphere.near_root_spec(ray) == -r);
    assert(sphere.far_root_spec(ray) == r);
    let p = ray.at_spec(sphere.radius);
    assert(p.x == ray.origin.x + e.x * r);
    assert(p.y == ray.origin.y + e.y * r);
    assert(p.z == ray.origin.z + e.z * r);
    let outward = sphere.outward_normal_spec(p);
    let k: int = if r == 1 {
        1
    } else {
        0
    };
    assert(1int / r == k) by (nonlinear_arith)
        requires
            1 <= r,
            r == 1 ==> k == 1,
            r != 1 ==> k == 0,
    ;
    assert(lit::<i64>(1).div_spec(sphere.radius) == k);
    assert(outward.x == e.x * r * k);
    assert(outward.y == e.y * r * k);
    assert(outward.z == e.z * r * k);
    assert(e.x * (e.x * r * k) + e.y * (e.y * r * k) + e.z * (e.z * r * k) == r * k)
        by (nonlinear_arith)
        requires
            e.x * e.x + e.y * e.y + e.z * e.z == 1,
    ;
    assert(e.dot_spec(outward) == r * k);
}

/// A ray that passes a sphere by farther than its radius misses it: on the
/// integers, for a direction of length one, where the squared distance of the
/// centre from the line of the ray, which is the squared length of the offset
/// less the square of its part along the ray, is above the squared radius,
/// there is no hit.
pub proof fn lemma_sphere_passed_by(sphere: Sphere<i64>, ray: Ray<i64>, t_min: i64, t_max: i64)
    requires
        sphere.discriminant_req(ray),
        ray.direction.dot_spec(ray.direction) == 1,
        sphere.offset_spec(ray).length_squared_spec() - sphere.half_b_spec(ray)
            * sphere.half_b_spec(ray) > sphere.radius * sphere.radius,
    ensures
        sphere.hit_spec(ray, t_min, t_max) is None,
{
    let half_b: int = sphere.half_b_spec(ray) as int;
    let c: int = sphere.c_spec(ray) as int;
    assert(Sphere::<i64>::a_spec(ray) == 1);
    assert(sphere.discriminant_spec(ray) == half_b * half_b - 1 * c);
}

impl<T: Real> Sphere<T> {
    /// Both roots can be computed: the discriminant is defined and not below
    /// zero, and so are its root and the two quotients.
    pub open spec fn both_roots_req(self, ray: Ray<T>) -> bool {
        let half_b = self.half_b_spec(ray);
        let root = self.discriminant_spec(ray).sqrt_spec();
        &&& self.discriminant_req(ray)
        &&& !lt(self.discriminant_spec(ray), lit::<T>(0))
        &&& defined_real::<T>(
            {
                &&& self.discriminant_spec(ray).sqrt_req()
                &&& half_b.neg_req()
                &&& half_b.neg_spec().sub_req(root)
                &&& half_b.neg_spec().sub_spec(root).div_req(Self::a_spec(ray))
                &&& half_b.neg_spec().add_req(root)
                &&& half_b.neg_spec().add_spec(root).div_req(Self::a_spec(ray))
            },
        )
    }
}

/// On the integers the smaller root is not above the larger one.
pub proof fn lemma_integer_roots_in_order(sphere: Sphere<i64>, ray: Ray<i64>)
    requires
        sphere.both_roots_req(ray),
    ensures
        sphere.near_root_spec(ray) <= sphere.far_root_spec(ray),
{
    let a: int = Sphere::<i64>::a_spec(ray) as int;
    let e = ray.direction;
    let minus_b: int = sphere.half_b_spec(ray).neg_spec() as int;
    let disc: int = sphere.discriminant_spec(ray) as int;
    let root: int = sphere.discriminant_spec(ray).sqrt_spec() as int;
    assert(0 <= disc);
    lemma_floor_sqrt(disc);
    let whole: int = floor_sqrt(disc);
    assert(whole <= disc) by (nonlinear_arith)
        requires
            0 <= whole,
            whole * whole <= disc,
    ;
    assert(root == whole);
    assert(a == e.x * e.x + e.y * e.y + e.z * e.z);
    assert(0 <= e.x * e.x && 0 <= e.y * e.y && 0 <= e.z * e.z) by (nonlinear_arith);
    assert(a > 0);
    let low: int = minus_b - root;
    let high: int = minus_b + root;
    assert(low <= high);
    let near: int = sphere.near_root_spec(ray) as int;
    let far: int = sphere.far_root_spec(ray) as int;
    if low >= 0 {
        assert(low / a <= high / a) by (nonlinear_arith)
            requires
                0 <= low <= high,
                a > 0,
        ;
    } else if high >= 0 {
        assert(0 <= (-low) / a) by (nonlinear_arith)
            requires
                0 <= -low,
                a > 0,
        ;
        assert(0 <= high / a) by (nonlinear_arith)
            requires
                0 <= high,
                a > 0,
        ;
    } else {
        assert((-high) / a <= (-low) / a) by (nonlinear_arith)
            requires
                0 <= -high <= -low,
                a > 0,
        ;
    }
}

/// On the integers a sphere answers steadily along every ray for which both
/// of its roots can be computed, and along every ray that misses it.
pub proof fn lemma_integer_sphere_steady(sphere: Sphere<i64>, ray: Ray<i64>, t_min: i64)
    requires
        lt(sphere.discriminant_spec(ray), lit::<i64>(0)) || sphere.both_roots_req(ray),
    ensures
        steady(sphere, ray, t_min),
{
    lemma_integers_linear();
    if !lt(sphere.discriminant_spec(ray), lit::<i64>(0)) {
        lemma_integer_roots_in_order(sphere, ray);
    }
    lemma_sphere_steady(sphere, ray, t_min);
}

/// On the integers the order of the spheres of a scene does not matter: of
/// two scenes that hold the same spheres, along a ray that misses each sphere
/// or has both roots with it, either none is hit or both are hit at the same
/// parameter.
pub proof fn lemma_integer_scene_any_order(
    first: Seq<Sphere<i64>>,
    second: Seq<Sphere<i64>>,
    ray: Ray<i64>,
    t_min: i64,
    t_max: i64,
)
    requires
        first.to_multiset() == second.to_multiset(),
        forall|i: int|
            0 <= i < first.len() ==> lt(
                (#[trigger] first[i]).discriminant_spec(ray),
                lit::<i64>(0),
            ) || first[i].both_roots_req(ray),
    ensures
        same_parameter(
            nearest_spec(first, first.len() as int, ray, t_min, t_max),
            nearest_spec(second, second.len() as int, ray, t_min, t_max),
        ),
{
    lemma_integers_linear();
    assert forall|i: int| 0 <= i < first.len() implies steady(#[trigger] first[i], ray, t_min) by {
        lemma_integer_sphere_steady(first[i], ray, t_min);
    }
    lemma_scene_hit_any_order(first, second, ray, t_min, t_max);
}

} // verus!

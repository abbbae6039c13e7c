//! Surfaces that a ray can meet, and what is known of the place where it does.

use crate::material::Material;
use crate::ray::Ray;
use crate::scalar::{defined, exact, le, lemma_le, linear, lit, lt, number, Arith, Real};
use crate::vec3::{Point3, Vec3};
use core::ops::Neg;
use vstd::prelude::*;

pub mod sphere;

verus! {

/// The place where a ray met a surface.
#[derive(Clone, Copy, Debug)]
pub struct HitRecord<'a, T> {
    /// The point of the surface that was met.
    pub p: Point3<T>,
    /// The normal of the surface there, turned against the ray.
    pub normal: Vec3<T>,
    /// The material of the surface.
    pub material: &'a Material<T>,
    /// The parameter of the ray at that point.
    pub t: T,
    /// Whether the ray came from outside, so that the normal is the outward
    /// one.
    pub front_face: bool,
}

/// `t` lies above `t_min` and not above `t_max`.
pub open spec fn within<T: PartialOrd>(t: T, t_min: T, t_max: T) -> bool {
    lt(t_min, t) && le(t, t_max)
}

impl<'a, T: Arith> HitRecord<'a, T> {
    pub fn new(
        p: Point3<T>,
        normal: Vec3<T>,
        material: &'a Material<T>,
        t: T,
        front_face: bool,
    ) -> (r: Self)
        ensures
            r == (HitRecord { p, normal, material, t, front_face }),
    {
        HitRecord { p, normal, material, t, front_face }
    }

    /// Whether `ray` meets a surface with the outward normal `outward_normal`
    /// from outside: its direction then points against that normal.
    pub open spec fn front_face_spec(ray: Ray<T>, outward_normal: Vec3<T>) -> bool {
        lt(ray.direction.dot_spec(outward_normal), lit::<T>(0))
    }

    pub open spec fn build_with_face_normal_req(ray: Ray<T>, outward_normal: Vec3<T>) -> bool {
        defined::<T>(
            {
                &&& ray.direction.dot_req(outward_normal)
                &&& !Self::front_face_spec(ray, outward_normal) ==> outward_normal.opposite_req()
            },
        )
    }

    /// The record whose normal is `outward_normal` where the ray came from
    /// outside, and its opposite where it came from inside.
    pub open spec fn build_with_face_normal_spec(
        ray: Ray<T>,
        outward_normal: Vec3<T>,
        material: &'a Material<T>,
        point: Point3<T>,
        t: T,
    ) -> Self {
        let front_face = Self::front_face_spec(ray, outward_normal);
        HitRecord {
            p: point,
            normal: if front_face {
                outward_normal
            } else {
                outward_normal.opposite_spec()
            },
            material,
            t,
            front_face,
        }
    }

    /// The record of a hit at `point`, with the normal turned against `ray`.
    pub fn build_with_face_normal(
        ray: Ray<T>,
        outward_normal: Vec3<T>,
        material: &'a Material<T>,
        point: Point3<T>,
        t: T,
    ) -> (r: Self)
        requires
            Self::build_with_face_normal_req(ray, outward_normal),
        ensures
            exact::<T>() ==> r == Self::build_with_face_normal_spec(
                ray,
                outward_normal,
                material,
                point,
                t,
            ),
            r.p == point,
            r.t == t,
            r.material == material,
    {
        let zero: T = number(0);
        let front_face = ray.direction.dot(outward_normal) < zero;
        let normal = if front_face {
            outward_normal
        } else {
            outward_normal.neg()
        };
        HitRecord::new(point, normal, material, t, front_face)
    }
}

/// A surface that a ray can meet.
///
/// An implementation says with `obeys_hit_spec` whether `hit` returns what
/// `hit_spec` says, and with `hit_req` where `hit` may be called. One that
/// leaves the three as they stand here can be asked by any ray and promises
/// nothing of what it returns.
pub trait Hittable<T: Real> {
    open spec fn obeys_hit_spec() -> bool {
        false
    }

    open spec fn hit_req(&self, ray: Ray<T>, t_min: T, t_max: T) -> bool {
        true
    }

    open spec fn hit_spec(&self, ray: Ray<T>, t_min: T, t_max: T) -> Option<HitRecord<'_, T>> {
        None
    }

    /// Where `ray` meets the surface first at a parameter above `t_min` and
    /// not above `t_max`, if it does.
    fn hit(&self, ray: &Ray<T>, t_min: T, t_max: T) -> (r: Option<HitRecord<'_, T>>)
        requires
            self.hit_req(*ray, t_min, t_max),
        ensures
            Self::obeys_hit_spec() ==> r == self.hit_spec(*ray, t_min, t_max),
    ;
}

/// How far a ray still reaches once `kept` is the nearest hit so far: to that
/// hit, or to `t_max` where there is none yet.
pub open spec fn reach_spec<T>(kept: Option<HitRecord<'_, T>>, t_max: T) -> T {
    match kept {
        Some(h) => h.t,
        None => t_max,
    }
}

/// The hit that is kept once the first `n` of `surfaces` were asked in turn,
/// each for a hit no farther than the one kept before it.
pub open spec fn nearest_spec<'a, T: Real, H: Hittable<T>>(
    surfaces: Seq<H>,
    n: int,
    ray: Ray<T>,
    t_min: T,
    t_max: T,
) -> Option<HitRecord<'a, T>>
    decreases n,
{
    if n <= 0 {
        None
    } else {
        let before = nearest_spec(surfaces, n - 1, ray, t_min, t_max);
        match surfaces[n - 1].hit_spec(ray, t_min, reach_spec(before, t_max)) {
            Some(h) => Some(h),
            None => before,
        }
    }
}

/// Each of `surfaces` can be asked in its turn.
pub open spec fn nearest_req<T: Real, H: Hittable<T>>(
    surfaces: Seq<H>,
    ray: Ray<T>,
    t_min: T,
    t_max: T,
) -> bool {
    forall|n: int|
        0 <= n < surfaces.len() ==> if H::obeys_hit_spec() {
            (#[trigger] surfaces[n]).hit_req(
                ray,
                t_min,
                reach_spec(nearest_spec(surfaces, n, ray, t_min, t_max), t_max),
            )
        } else {
            forall|reach: T| #[trigger] surfaces[n].hit_req(ray, t_min, reach)
        }
}

/// A scene is a list of surfaces. A ray meets it where it meets the nearest
/// of them.
impl<T: Real, H: Hittable<T>> Hittable<T> for Vec<H> {
    open spec fn obeys_hit_spec() -> bool {
        H::obeys_hit_spec()
    }

    open spec fn hit_req(&self, ray: Ray<T>, t_min: T, t_max: T) -> bool {
        nearest_req(self@, ray, t_min, t_max)
    }

    open spec fn hit_spec(&self, ray: Ray<T>, t_min: T, t_max: T) -> Option<HitRecord<'_, T>> {
        nearest_spec(self@, self@.len() as int, ray, t_min, t_max)
    }

    /// Asks the surfaces in turn, each for a hit no farther than the nearest
    /// so far, and keeps the last hit.
    fn hit(&self, ray: &Ray<T>, t_min: T, t_max: T) -> (r: Option<HitRecord<'_, T>>)
        ensures
            H::obeys_hit_spec() ==> r == nearest_spec(
                self@,
                self@.len() as int,
                *ray,
                t_min,
                t_max,
            ),
    {
        let mut closest_so_far: Option<HitRecord<'_, T>> = None;
        let mut reach = t_max;
        let mut i: usize = 0;
        while i < self.len()
            invariant
                i <= self.len(),
                nearest_req(self@, *ray, t_min, t_max),
                H::obeys_hit_spec() ==> closest_so_far == nearest_spec(
                    self@,
                    i as int,
                    *ray,
                    t_min,
                    t_max,
                ),
                H::obeys_hit_spec() ==> reach == reach_spec(closest_so_far, t_max),
            decreases self.len() - i,
        {
            if let Some(hit_record) = self[i].hit(ray, t_min, reach) {
                reach = hit_record.t;
                closest_so_far = Some(hit_record);
            }
            i += 1;
        }
        closest_so_far
    }
}

/// What is left of `hit` for a ray that reaches no farther than `bound`.
pub open spec fn narrowed<'a, T: PartialOrd>(hit: Option<HitRecord<'a, T>>, bound: T) -> Option<
    HitRecord<'a, T>,
> {
    match hit {
        Some(h) => if le(h.t, bound) {
            Some(h)
        } else {
            None
        },
        None => None,
    }
}

/// `surface` answers steadily along `ray`: a hit lies within the bounds that
/// were asked for, and for a nearer bound the surface gives the same hit where
/// that still lies within, else none. A surface that reports the first place
/// where a ray meets it is steady.
pub open spec fn steady<T: Real, H: Hittable<T>>(surface: H, ray: Ray<T>, t_min: T) -> bool {
    &&& forall|far: T| (#[trigger] surface.hit_spec(ray, t_min, far)) matches Some(h) ==> within(
        h.t,
        t_min,
        far,
    )
    &&& forall|far: T, near: T|
        #![trigger surface.hit_spec(ray, t_min, near), surface.hit_spec(ray, t_min, far)]
        le(near, far) ==> surface.hit_spec(ray, t_min, near) == narrowed(
            surface.hit_spec(ray, t_min, far),
            near,
        )
}

/// `best` is the nearest of the hits of the first `n` of `surfaces`: it is the
/// hit of one of them, and the hit of none of them lies nearer. Where it is
/// none, none of them is hit.
pub open spec fn is_nearest<T: Real, H: Hittable<T>>(
    surfaces: Seq<H>,
    n: int,
    ray: Ray<T>,
    t_min: T,
    t_max: T,
    best: Option<HitRecord<'_, T>>,
) -> bool {
    &&& best matches Some(h) ==> within(h.t, t_min, t_max) && exists|i: int|
        0 <= i < n && #[trigger] surfaces[i].hit_spec(ray, t_min, t_max) == Some(h)
    &&& forall|i: int|
        0 <= i < n ==> ((#[trigger] surfaces[i].hit_spec(ray, t_min, t_max)) matches Some(other)
            ==> best matches Some(h) && le(h.t, other.t))
}

/// A scene reports the nearest hit: where the order of the scalar is linear
/// and every surface answers steadily, the hit that is kept after the first
/// `n` surfaces is the nearest of theirs.
pub proof fn lemma_scene_hit_is_nearest<T: Real, H: Hittable<T>>(
    surfaces: Seq<H>,
    n: int,
    ray: Ray<T>,
    t_min: T,
    t_max: T,
)
    requires
        linear::<T>(),
        0 <= n <= surfaces.len(),
        forall|i: int| 0 <= i < surfaces.len() ==> steady(#[trigger] surfaces[i], ray, t_min),
    ensures
        is_nearest(surfaces, n, ray, t_min, t_max, nearest_spec(surfaces, n, ray, t_min, t_max)),
    decreases n,
{
    if n > 0 {
        lemma_scene_hit_is_nearest(surfaces, n - 1, ray, t_min, t_max);
        let before = nearest_spec(surfaces, n - 1, ray, t_min, t_max);
        let reach = reach_spec(before, t_max);
        let surface = surfaces[n - 1];
        let full = surface.hit_spec(ray, t_min, t_max);
        let asked = surface.hit_spec(ray, t_min, reach);
        let best = nearest_spec(surfaces, n, ray, t_min, t_max);
        assert(steady(surface, ray, t_min));
        lemma_le(reach, t_max, t_max);
        assert(le(reach, t_max));
        assert(asked == narrowed(full, reach));
        match asked {
            Some(h) => {
                assert(best == Some(h));
                assert(full == Some(h));
                assert forall|i: int| 0 <= i < n implies ((#[trigger] surfaces[i].hit_spec(
                    ray,
                    t_min,
                    t_max,
                )) matches Some(other) ==> le(h.t, other.t)) by {
                    if let Some(other) = surfaces[i].hit_spec(ray, t_min, t_max) {
                        if i < n - 1 {
                            lemma_le(h.t, reach, other.t);
                        } else {
                            lemma_le(h.t, h.t, h.t);
                        }
                    }
                }
            },
            None => {
                assert(best == before);
                if let Some(other) = full {
                    lemma_le(other.t, reach, t_max);
                    lemma_le(reach, other.t, other.t);
                }
                if let Some(h) = before {
                    let i = choose|i: int|
                        0 <= i < n - 1 && #[trigger] surfaces[i].hit_spec(ray, t_min, t_max)
                            == Some(h);
                    assert(0 <= i < n && surfaces[i].hit_spec(ray, t_min, t_max) == Some(h));
                }
            },
        }
    }
}

/// Both are no hit, or both are hits at the same parameter.
pub open spec fn same_parameter<T>(
    first: Option<HitRecord<'_, T>>,
    second: Option<HitRecord<'_, T>>,
) -> bool {
    match (first, second) {
        (Some(a), Some(b)) => a.t == b.t,
        (None, None) => true,
        _ => false,
    }
}

/// The order of the surfaces does not matter: of two scenes that hold the same
/// surfaces, either none is hit, or both are hit at the same parameter.
pub proof fn lemma_scene_hit_any_order<T: Real, H: Hittable<T>>(
    first: Seq<H>,
    second: Seq<H>,
    ray: Ray<T>,
    t_min: T,
    t_max: T,
)
    requires
        linear::<T>(),
        first.to_multiset() == second.to_multiset(),
        forall|i: int| 0 <= i < first.len() ==> steady(#[trigger] first[i], ray, t_min),
    ensures
        same_parameter(
            nearest_spec(first, first.len() as int, ray, t_min, t_max),
            nearest_spec(second, second.len() as int, ray, t_min, t_max),
        ),
{
    assert forall|j: int| 0 <= j < second.len() implies steady(
        #[trigger] second[j],
        ray,
        t_min,
    ) by {
        assert(second.contains(second[j]));
        vstd::seq_lib::to_multiset_contains(second, second[j]);
        vstd::seq_lib::to_multiset_contains(first, second[j]);
        assert(first.contains(second[j]));
    }
    lemma_scene_hit_is_nearest(first, first.len() as int, ray, t_min, t_max);
    lemma_scene_hit_is_nearest(second, second.len() as int, ray, t_min, t_max);
    let a = nearest_spec(first, first.len() as int, ray, t_min, t_max);
    let b = nearest_spec(second, second.len() as int, ray, t_min, t_max);
    if let Some(h) = a {
        let i = choose|i: int|
            0 <= i < first.len() && #[trigger] first[i].hit_spec(ray, t_min, t_max) == Some(h);
        assert(first.contains(first[i]));
        vstd::seq_lib::to_multiset_contains(first, first[i]);
        vstd::seq_lib::to_multiset_contains(second, first[i]);
        assert(second.contains(first[i]));
        let j = choose|j: int| 0 <= j < second.len() && second[j] == first[i];
        assert(second[j].hit_spec(ray, t_min, t_max) == Some(h));
    }
    if let Some(h) = b {
        let j = choose|j: int|
            0 <= j < second.len() && #[trigger] second[j].hit_spec(ray, t_min, t_max) == Some(h);
        assert(second.contains(second[j]));
        vstd::seq_lib::to_multiset_contains(second, second[j]);
        vstd::seq_lib::to_multiset_contains(first, second[j]);
        assert(first.contains(second[j]));
        let i = choose|i: int| 0 <= i < first.len() && first[i] == second[j];
        assert(first[i].hit_spec(ray, t_min, t_max) == Some(h));
    }
    if let (Some(h), Some(k)) = (a, b) {
        lemma_le(h.t, k.t, k.t);
    }
}

} // verus!

//! Three scalars as a point, a direction or a colour.

use crate::sampler::Sampler;
use crate::scalar::{
    defined, defined_real, exact, exact_real, floor_sqrt, is_floor_sqrt, lemma_floor_sqrt,
    lemma_floor_sqrt_unique, lit, lt, magnitude, magnitude_req, magnitude_spec, number, smaller,
    smaller_spec, Arith, Real,
};
use core::ops::{Add, Div, Mul, Neg, Sub};
use vstd::prelude::*;
use vstd::std_specs::ops::{AddSpec, DivSpec, MulSpec, NegSpec, SubSpec};

verus! {

/// Three scalars. The same type serves as a point, as a direction and as a
/// colour, whose components are then red, green and blue.
#[derive(Clone, Copy, Debug, PartialEq, Default)]
pub struct Vec3<T> {
    pub x: T,
    pub y: T,
    pub z: T,
}

pub type Color<T> = Vec3<T>;

pub type Point3<T> = Vec3<T>;

impl<T: Arith> Add for Vec3<T> {
    type Output = Vec3<T>;

    /// The sum, component by component. It is defined where `plus_req` holds
    /// and is then `plus_spec`.
    fn add(self, rhs: Vec3<T>) -> (r: Vec3<T>)
        ensures
            exact::<T>() ==> r == self.plus_spec(rhs),
    {
        Vec3 { x: self.x + rhs.x, y: self.y + rhs.y, z: self.z + rhs.z }
    }
}

impl<T: Arith> vstd::std_specs::ops::AddSpecImpl for Vec3<T> {
    open spec fn obeys_add_spec() -> bool {
        exact::<T>()
    }

    open spec fn add_req(self, rhs: Vec3<T>) -> bool {
        self.plus_req(rhs)
    }

    open spec fn add_spec(self, rhs: Vec3<T>) -> Vec3<T> {
        self.plus_spec(rhs)
    }
}

impl<T: Arith> Sub for Vec3<T> {
    type Output = Vec3<T>;

    /// The difference, component by component. It is defined where
    /// `minus_req` holds and is then `minus_spec`.
    fn sub(self, rhs: Vec3<T>) -> (r: Vec3<T>)
        ensures
            exact::<T>() ==> r == self.minus_spec(rhs),
    {
        Vec3 { x: self.x - rhs.x, y: self.y - rhs.y, z: self.z - rhs.z }
    }
}

impl<T: Arith> vstd::std_specs::ops::SubSpecImpl for Vec3<T> {
    open spec fn obeys_sub_spec() -> bool {
        exact::<T>()
    }

    open spec fn sub_req(self, rhs: Vec3<T>) -> bool {
        self.minus_req(rhs)
    }

    open spec fn sub_spec(self, rhs: Vec3<T>) -> Vec3<T> {
        self.minus_spec(rhs)
    }
}

impl<T: Arith> Mul for Vec3<T> {
    type Output = Vec3<T>;

    /// The product, component by component: how one colour tints another. It
    /// is defined where `tinted_req` holds and is then `tinted_spec`.
    fn mul(self, rhs: Vec3<T>) -> (r: Vec3<T>)
        ensures
            exact::<T>() ==> r == self.tinted_spec(rhs),
    {
        Vec3 { x: self.x * rhs.x, y: self.y * rhs.y, z: self.z * rhs.z }
    }
}

impl<T: Arith> vstd::std_specs::ops::MulSpecImpl for Vec3<T> {
    open spec fn obeys_mul_spec() -> bool {
        exact::<T>()
    }

    open spec fn mul_req(self, rhs: Vec3<T>) -> bool {
        self.tinted_req(rhs)
    }

    open spec fn mul_spec(self, rhs: Vec3<T>) -> Vec3<T> {
        self.tinted_spec(rhs)
    }
}

impl<T: Arith> Mul<T> for Vec3<T> {
    type Output = Vec3<T>;

    /// Each component times the scalar `rhs`. It is defined where
    /// `scaled_req` holds and is then `scaled_spec`.
    fn mul(self, rhs: T) -> (r: Vec3<T>)
        ensures
            exact::<T>() ==> r == self.scaled_spec(rhs),
    {
        Vec3 { x: self.x * rhs, y: self.y * rhs, z: self.z * rhs }
    }
}

impl<T: Arith> vstd::std_specs::ops::MulSpecImpl<T> for Vec3<T> {
    open spec fn obeys_mul_spec() -> bool {
        exact::<T>()
    }

    open spec fn mul_req(self, rhs: T) -> bool {
        self.scaled_req(rhs)
    }

    open spec fn mul_spec(self, rhs: T) -> Vec3<T> {
        self.scaled_spec(rhs)
    }
}

impl<T: Arith> Div<T> for Vec3<T> {
    type Output = Vec3<T>;

    /// Each component times the inverse of `rhs`, which is taken once. It is
    /// defined where `divided_req` holds and is then `divided_spec`.
    fn div(self, rhs: T) -> (r: Vec3<T>)
        ensures
            exact::<T>() ==> r == self.divided_spec(rhs),
    {
        let one: T = number(1);
        self * (one / rhs)
    }
}

impl<T: Arith> vstd::std_specs::ops::DivSpecImpl<T> for Vec3<T> {
    open spec fn obeys_div_spec() -> bool {
        exact::<T>()
    }

    open spec fn div_req(self, rhs: T) -> bool {
        self.divided_req(rhs)
    }

    open spec fn div_spec(self, rhs: T) -> Vec3<T> {
        self.divided_spec(rhs)
    }
}

impl<T: Arith> Neg for Vec3<T> {
    type Output = Vec3<T>;

    /// The opposite vector. It is defined where `opposite_req` holds and is
    /// then `opposite_spec`.
    fn neg(self) -> (r: Vec3<T>)
        ensures
            exact::<T>() ==> r == self.opposite_spec(),
    {
        Vec3 { x: self.x.neg(), y: self.y.neg(), z: self.z.neg() }
    }
}

impl<T: Arith> vstd::std_specs::ops::NegSpecImpl for Vec3<T> {
    open spec fn obeys_neg_spec() -> bool {
        exact::<T>()
    }

    open spec fn neg_req(self) -> bool {
        self.opposite_req()
    }

    open spec fn neg_spec(self) -> Vec3<T> {
        self.opposite_spec()
    }
}

/// What the operators on vectors ask and give. Each operator is defined where
/// the scalar operations on the components are, and gives the vector of their
/// results.
impl<T: Arith> Vec3<T> {
    pub open spec fn plus_req(self, rhs: Self) -> bool {
        defined::<T>(self.x.add_req(rhs.x) && self.y.add_req(rhs.y) && self.z.add_req(rhs.z))
    }

    /// `self + rhs`.
    pub open spec fn plus_spec(self, rhs: Self) -> Self {
        Vec3 { x: self.x.add_spec(rhs.x), y: self.y.add_spec(rhs.y), z: self.z.add_spec(rhs.z) }
    }

    pub open spec fn minus_req(self, rhs: Self) -> bool {
        defined::<T>(self.x.sub_req(rhs.x) && self.y.sub_req(rhs.y) && self.z.sub_req(rhs.z))
    }

    /// `self - rhs`.
    pub open spec fn minus_spec(self, rhs: Self) -> Self {
        Vec3 { x: self.x.sub_spec(rhs.x), y: self.y.sub_spec(rhs.y), z: self.z.sub_spec(rhs.z) }
    }

    pub open spec fn tinted_req(self, rhs: Self) -> bool {
        defined::<T>(self.x.mul_req(rhs.x) && self.y.mul_req(rhs.y) && self.z.mul_req(rhs.z))
    }

    /// `self * rhs` for a vector `rhs`.
    pub open spec fn tinted_spec(self, rhs: Self) -> Self {
        Vec3 { x: self.x.mul_spec(rhs.x), y: self.y.mul_spec(rhs.y), z: self.z.mul_spec(rhs.z) }
    }

    pub open spec fn scaled_req(self, rhs: T) -> bool {
        defined::<T>(self.x.mul_req(rhs) && self.y.mul_req(rhs) && self.z.mul_req(rhs))
    }

    /// `self * rhs` for a scalar `rhs`.
    pub open spec fn scaled_spec(self, rhs: T) -> Self {
        Vec3 { x: self.x.mul_spec(rhs), y: self.y.mul_spec(rhs), z: self.z.mul_spec(rhs) }
    }

    pub open spec fn divided_req(self, rhs: T) -> bool {
        defined::<T>(lit::<T>(1).div_req(rhs) && self.scaled_req(lit::<T>(1).div_spec(rhs)))
    }

    /// `self / rhs`: the vector times the inverse of `rhs`.
    pub open spec fn divided_spec(self, rhs: T) -> Self {
        self.scaled_spec(lit::<T>(1).div_spec(rhs))
    }

    pub open spec fn opposite_req(self) -> bool {
        defined::<T>(self.x.neg_req() && self.y.neg_req() && self.z.neg_req())
    }

    /// `-self`.
    pub open spec fn opposite_spec(self) -> Self {
        Vec3 { x: self.x.neg_spec(), y: self.y.neg_spec(), z: self.z.neg_spec() }
    }
}

impl<T> Vec3<T> {
    /// The vector with the components `x`, `y` and `z`.
    pub fn new(x: T, y: T, z: T) -> (r: Self)
        ensures
            r == (Vec3 { x, y, z }),
    {
        Vec3 { x, y, z }
    }

    /// The component at `index`: `x` at 0, `y` at 1, `z` at 2.
    pub open spec fn component(self, index: int) -> T
        recommends
            0 <= index < 3,
    {
        if index == 0 {
            self.x
        } else if index == 1 {
            self.y
        } else {
            self.z
        }
    }

    /// This vector with `value` in place of the component at `index`.
    pub open spec fn with_component(self, index: int, value: T) -> Self
        recommends
            0 <= index < 3,
    {
        if index == 0 {
            Vec3 { x: value, y: self.y, z: self.z }
        } else if index == 1 {
            Vec3 { x: self.x, y: value, z: self.z }
        } else {
            Vec3 { x: self.x, y: self.y, z: value }
        }
    }

    /// The component at `index`: `x` at 0, `y` at 1, `z` at 2. There is no
    /// other component.
    pub fn index(&self, index: usize) -> (r: &T)
        requires
            index < 3,
        ensures
            *r == self.component(index as int),
    {
        if index == 0 {
            &self.x
        } else if index == 1 {
            &self.y
        } else {
            &self.z
        }
    }

    /// The component at `index`, to be written: whatever is left in it is the
    /// only thing that changes in the vector.
    pub fn index_mut(&mut self, index: usize) -> (r: &mut T)
        requires
            index < 3,
        ensures
            *r == old(self).component(index as int),
            *final(self) == old(self).with_component(index as int, *final(r)),
    {
        if index == 0 {
            &mut self.x
        } else if index == 1 {
            &mut self.y
        } else {
            &mut self.z
        }
    }
}

impl<T: Arith> Vec3<T> {
    pub open spec fn dot_req(self, rhs: Self) -> bool {
        let xx = self.x.mul_spec(rhs.x);
        let yy = self.y.mul_spec(rhs.y);
        let zz = self.z.mul_spec(rhs.z);
        defined::<T>(
            {
                &&& self.x.mul_req(rhs.x)
                &&& self.y.mul_req(rhs.y)
                &&& self.z.mul_req(rhs.z)
                &&& xx.add_req(yy)
                &&& xx.add_spec(yy).add_req(zz)
            },
        )
    }

    /// The sum of the products of the components, taken from `x` to `z`.
    pub open spec fn dot_spec(self, rhs: Self) -> T {
        self.x.mul_spec(rhs.x).add_spec(self.y.mul_spec(rhs.y)).add_spec(self.z.mul_spec(rhs.z))
    }

    /// The dot product.
    pub fn dot(self, rhs: Self) -> (r: T)
        requires
            self.dot_req(rhs),
        ensures
            exact::<T>() ==> r == self.dot_spec(rhs),
    {
        self.x * rhs.x + self.y * rhs.y + self.z * rhs.z
    }

    pub open spec fn length_squared_req(self) -> bool {
        self.dot_req(self)
    }

    /// The dot product of the vector with itself.
    pub open spec fn length_squared_spec(self) -> T {
        self.dot_spec(self)
    }

    /// The square of the length.
    pub fn length_squared(self) -> (r: T)
        requires
            self.length_squared_req(),
        ensures
            exact::<T>() ==> r == self.length_squared_spec(),
    {
        self.x * self.x + self.y * self.y + self.z * self.z
    }

    pub open spec fn cross_req(self, rhs: Self) -> bool {
        defined::<T>(
            {
                &&& self.y.mul_req(rhs.z)
                &&& self.z.mul_req(rhs.y)
                &&& self.y.mul_spec(rhs.z).sub_req(self.z.mul_spec(rhs.y))
                &&& self.z.mul_req(rhs.x)
                &&& self.x.mul_req(rhs.z)
                &&& self.z.mul_spec(rhs.x).sub_req(self.x.mul_spec(rhs.z))
                &&& self.x.mul_req(rhs.y)
                &&& self.y.mul_req(rhs.x)
                &&& self.x.mul_spec(rhs.y).sub_req(self.y.mul_spec(rhs.x))
            },
        )
    }

    /// The vector `(y z' - z y', z x' - x z', x y' - y x')`.
    pub open spec fn cross_spec(self, rhs: Self) -> Self {
        Vec3 {
            x: self.y.mul_spec(rhs.z).sub_spec(self.z.mul_spec(rhs.y)),
            y: self.z.mul_spec(rhs.x).sub_spec(self.x.mul_spec(rhs.z)),
            z: self.x.mul_spec(rhs.y).sub_spec(self.y.mul_spec(rhs.x)),
        }
    }

    /// The cross product.
    pub fn cross(self, rhs: Self) -> (r: Self)
        requires
            self.cross_req(rhs),
        ensures
            exact::<T>() ==> r == self.cross_spec(rhs),
    {
        Vec3 {
            x: self.y * rhs.z - self.z * rhs.y,
            y: self.z * rhs.x - self.x * rhs.z,
            z: self.x * rhs.y - self.y * rhs.x,
        }
    }

    pub open spec fn reflect_req(self, n: Self) -> bool {
        let twice = lit::<T>(2).mul_spec(self.dot_spec(n));
        defined::<T>(
            {
                &&& self.dot_req(n)
                &&& lit::<T>(2).mul_req(self.dot_spec(n))
                &&& n.scaled_req(twice)
                &&& self.minus_req(n.scaled_spec(twice))
            },
        )
    }

    /// `v - 2 (v . n) n`: the vector `v` mirrored at the surface whose normal
    /// is `n`.
    pub open spec fn reflect_spec(self, n: Self) -> Self {
        self.minus_spec(n.scaled_spec(lit::<T>(2).mul_spec(self.dot_spec(n))))
    }

    /// This vector mirrored at the surface whose normal is `n`.
    pub fn reflect(self, n: Self) -> (r: Self)
        requires
            self.reflect_req(n),
        ensures
            exact::<T>() ==> r == self.reflect_spec(n),
    {
        let two: T = number(2);
        self - n * (two * self.dot(n))
    }

    /// The bound below which a component counts as zero: one part in a
    /// hundred million.
    pub open spec fn tiny() -> T {
        lit::<T>(1).div_spec(lit::<T>(100_000_000))
    }

    pub open spec fn near_zero_req(self) -> bool {
        defined::<T>(lit::<T>(1).div_req(lit::<T>(100_000_000)) && Self::tiny().neg_req())
    }

    /// Every component lies strictly between minus `tiny` and `tiny`.
    pub open spec fn near_zero_spec(self) -> bool {
        let s = Self::tiny();
        let m = s.neg_spec();
        &&& lt(m, self.x) && lt(self.x, s)
        &&& lt(m, self.y) && lt(self.y, s)
        &&& lt(m, self.z) && lt(self.z, s)
    }

    /// Whether the vector is so short that it gives no direction.
    pub fn near_zero(&self) -> (r: bool)
        requires
            self.near_zero_req(),
        ensures
            exact::<T>() ==> r == self.near_zero_spec(),
    {
        let one: T = number(1);
        let many: T = number(100_000_000);
        let s = one / many;
        let m = s.neg();
        m < self.x && self.x < s && m < self.y && self.y < s && m < self.z && self.z < s
    }

    /// Adds `rhs` to this vector.
    pub fn add_assign(&mut self, rhs: Self)
        requires
            old(self).plus_req(rhs),
        ensures
            exact::<T>() ==> *final(self) == old(self).plus_spec(rhs),
    {
        *self = *self + rhs;
    }

    /// Takes `rhs` from this vector.
    pub fn sub_assign(&mut self, rhs: Self)
        requires
            old(self).minus_req(rhs),
        ensures
            exact::<T>() ==> *final(self) == old(self).minus_spec(rhs),
    {
        *self = *self - rhs;
    }

    /// Multiplies each component by the scalar `rhs`.
    pub fn mul_assign(&mut self, rhs: T)
        requires
            old(self).scaled_req(rhs),
        ensures
            exact::<T>() ==> *final(self) == old(self).scaled_spec(rhs),
    {
        *self = *self * rhs;
    }

    /// Divides each component by the scalar `rhs`.
    pub fn div_assign(&mut self, rhs: T)
        requires
            old(self).divided_req(rhs),
        ensures
            exact::<T>() ==> *final(self) == old(self).divided_spec(rhs),
    {
        *self = *self / rhs;
    }
}

impl<T: Real> Vec3<T> {
    pub open spec fn length_req(self) -> bool {
        defined_real::<T>(self.length_squared_req() && self.length_squared_spec().sqrt_req())
    }

    /// The square root of the squared length.
    pub open spec fn length_spec(self) -> T {
        self.length_squared_spec().sqrt_spec()
    }

    /// The length.
    pub fn length(self) -> (r: T)
        requires
            self.length_req(),
        ensures
            exact_real::<T>() ==> r == self.length_spec(),
    {
        self.length_squared().sqrt()
    }

    pub open spec fn unit_vector_req(self) -> bool {
        defined_real::<T>(self.length_req() && self.divided_req(self.length_spec()))
    }

    /// The vector divided by its length.
    pub open spec fn unit_vector_spec(self) -> Self {
        self.divided_spec(self.length_spec())
    }

    /// The vector of length one along this one. What comes of a vector of
    /// length zero is what the scalar's division makes of it.
    pub fn unit_vector(self) -> (r: Self)
        requires
            self.unit_vector_req(),
        ensures
            exact_real::<T>() ==> r == self.unit_vector_spec(),
    {
        self / self.length()
    }

    /// The cosine of the angle between minus this vector and `n`, held at
    /// most at one.
    pub open spec fn cos_against_spec(self, n: Self) -> T {
        smaller_spec(self.opposite_spec().dot_spec(n), lit::<T>(1))
    }

    /// The part of the refracted vector across the normal.
    pub open spec fn refract_across_spec(self, n: Self, etai_over_etat: T) -> Self {
        self.plus_spec(n.scaled_spec(self.cos_against_spec(n))).scaled_spec(etai_over_etat)
    }

    /// What is left of one when the squared length of the part across the
    /// normal is taken from it, without its sign.
    pub open spec fn refract_rest_spec(self, n: Self, etai_over_etat: T) -> T {
        magnitude_spec(
            lit::<T>(1).sub_spec(self.refract_across_spec(n, etai_over_etat).length_squared_spec()),
        )
    }

    pub open spec fn refract_req(self, n: Self, etai_over_etat: T) -> bool {
        let cos_theta = self.cos_against_spec(n);
        let across = self.refract_across_spec(n, etai_over_etat);
        let rest = self.refract_rest_spec(n, etai_over_etat);
        defined_real::<T>(
            {
                &&& self.opposite_req()
                &&& self.opposite_spec().dot_req(n)
                &&& n.scaled_req(cos_theta)
                &&& self.plus_req(n.scaled_spec(cos_theta))
                &&& self.plus_spec(n.scaled_spec(cos_theta)).scaled_req(etai_over_etat)
                &&& across.length_squared_req()
                &&& lit::<T>(1).sub_req(across.length_squared_spec())
                &&& magnitude_req(lit::<T>(1).sub_spec(across.length_squared_spec()))
                &&& rest.sqrt_req()
                &&& rest.sqrt_spec().neg_req()
                &&& n.scaled_req(rest.sqrt_spec().neg_spec())
                &&& across.plus_req(n.scaled_spec(rest.sqrt_spec().neg_spec()))
            },
        )
    }

    /// The refracted vector: its part across the normal, which is
    /// `ratio (v + cos n)`, plus its part along the normal, which is
    /// `-sqrt(|1 - across . across|) n`.
    pub open spec fn refract_spec(self, n: Self, etai_over_etat: T) -> Self {
        let across = self.refract_across_spec(n, etai_over_etat);
        let rest = self.refract_rest_spec(n, etai_over_etat);
        across.plus_spec(n.scaled_spec(rest.sqrt_spec().neg_spec()))
    }

    /// This vector, of length one, bent on entering a surface with the normal
    /// `n`, where `etai_over_etat` is the ratio of the refractive indices.
    pub fn refract(self, n: Self, etai_over_etat: T) -> (r: Self)
        requires
            self.refract_req(n, etai_over_etat),
        ensures
            exact_real::<T>() ==> r == self.refract_spec(n, etai_over_etat),
    {
        let one: T = number(1);
        let cos_theta = smaller(self.neg().dot(n), one);
        let across = (self + n * cos_theta) * etai_over_etat;
        let rest = magnitude(one - across.length_squared());
        let along = n * rest.sqrt().neg();
        across + along
    }
}

impl<T: Arith> Vec3<T> {
    pub open spec fn inside_unit_sphere_req(self) -> bool {
        self.length_squared_req()
    }

    /// The squared length is below one.
    pub open spec fn inside_unit_sphere_spec(self) -> bool {
        lt(self.length_squared_spec(), lit::<T>(1))
    }

    /// Whether the point lies inside the ball of radius one round the origin.
    pub fn inside_unit_sphere(self) -> (r: bool)
        requires
            self.inside_unit_sphere_req(),
        ensures
            exact::<T>() ==> r == self.inside_unit_sphere_spec(),
    {
        let one: T = number(1);
        self.length_squared() < one
    }

    /// What a round of rejection sampling makes of the candidate `self`: the
    /// candidate where it lies inside the ball of radius one, else nothing.
    pub open spec fn kept_spec(self) -> Option<Self> {
        if self.inside_unit_sphere_spec() {
            Some(self)
        } else {
            None
        }
    }

    pub open spec fn turned_toward_req(self, normal: Self) -> bool {
        defined::<T>(
            self.dot_req(normal) && (!lt(lit::<T>(0), self.dot_spec(normal))
                ==> self.opposite_req()),
        )
    }

    /// The vector itself where it points to the side of `normal`, else its
    /// opposite.
    pub open spec fn turned_toward_spec(self, normal: Self) -> Self {
        if lt(lit::<T>(0), self.dot_spec(normal)) {
            self
        } else {
            self.opposite_spec()
        }
    }

    /// The vector turned to the side of `normal`.
    pub fn turned_toward(self, normal: Self) -> (r: Self)
        requires
            self.turned_toward_req(normal),
        ensures
            exact::<T>() ==> r == self.turned_toward_spec(normal),
    {
        let zero: T = number(0);
        if zero < self.dot(normal) {
            self
        } else {
            self.neg()
        }
    }

    /// A vector whose components are drawn from `sampler` one after the other,
    /// from `x` to `z`: each is what `uniform` returns when it is asked for a
    /// scalar from `min` up to `max`, the second drawn from the sampler as the
    /// first draw left it, the third as the second left it. The sampler is
    /// left as the third draw left it. Whatever a sampler promises of what
    /// its `uniform` returns thus holds of each component.
    pub fn random<S: Sampler<T>>(min: T, max: T, sampler: &mut S) -> (r: Self)
        ensures
            exists|first: &mut S, second: &mut S, third: &mut S|
                *first == *old(sampler) && *second == *final(first) && *third == *final(second)
                    && *final(sampler) == *final(third) && #[trigger] call_ensures(
                    S::uniform,
                    (first, min, max),
                    r.x,
                ) && #[trigger] call_ensures(S::uniform, (second, min, max), r.y)
                    && #[trigger] call_ensures(S::uniform, (third, min, max), r.z),
    {
        let ghost start = *sampler;
        let x = sampler.uniform(min, max);
        let ghost after_x = *sampler;
        let y = sampler.uniform(min, max);
        let ghost after_y = *sampler;
        let z = sampler.uniform(min, max);
        let r = Vec3 { x, y, z };
        proof {
            let first = choose|first: &mut S|
                *first == start && *final(first) == after_x && #[trigger] call_ensures(
                    S::uniform,
                    (first, min, max),
                    x,
                );
            let second = choose|second: &mut S|
                *second == after_x && *final(second) == after_y && #[trigger] call_ensures(
                    S::uniform,
                    (second, min, max),
                    y,
                );
            let third = choose|third: &mut S|
                *third == after_y && *final(third) == *sampler && #[trigger] call_ensures(
                    S::uniform,
                    (third, min, max),
                    z,
                );
            assert(call_ensures(S::uniform, (first, min, max), r.x));
            assert(call_ensures(S::uniform, (second, min, max), r.y));
            assert(call_ensures(S::uniform, (third, min, max), r.z));
        }
        r
    }

    /// As `random`: three draws of `uniform` for a scalar from `min` up to
    /// `max`, which are the components from `x` to `z`, and the sampler is
    /// left as the third draw left it.
    pub fn random_range<S: Sampler<T>>(min: T, max: T, sampler: &mut S) -> (r: Self)
        ensures
            exists|first: &mut S, second: &mut S, third: &mut S|
                *first == *old(sampler) && *second == *final(first) && *third == *final(second)
                    && *final(sampler) == *final(third) && #[trigger] call_ensures(
                    S::uniform,
                    (first, min, max),
                    r.x,
                ) && #[trigger] call_ensures(S::uniform, (second, min, max), r.y)
                    && #[trigger] call_ensures(S::uniform, (third, min, max), r.z),
    {
        let ghost start = *sampler;
        let x = sampler.uniform(min, max);
        let ghost after_x = *sampler;
        let y = sampler.uniform(min, max);
        let ghost after_y = *sampler;
        let z = sampler.uniform(min, max);
        let r = Vec3 { x, y, z };
        proof {
            let first = choose|first: &mut S|
                *first == start && *final(first) == after_x && #[trigger] call_ensures(
                    S::uniform,
                    (first, min, max),
                    x,
                );
            let second = choose|second: &mut S|
                *second == after_x && *final(second) == after_y && #[trigger] call_ensures(
                    S::uniform,
                    (second, min, max),
                    y,
                );
            let third = choose|third: &mut S|
                *third == after_y && *final(third) == *sampler && #[trigger] call_ensures(
                    S::uniform,
                    (third, min, max),
                    z,
                );
            assert(call_ensures(S::uniform, (first, min, max), r.x));
            assert(call_ensures(S::uniform, (second, min, max), r.y));
            assert(call_ensures(S::uniform, (third, min, max), r.z));
        }
        r
    }

    /// One round of rejection sampling from the ball of radius one: draws a
    /// candidate from the cube from -1 to 1 and keeps it where it lies inside
    /// the ball. `None` asks for another round.
    pub fn random_in_unit_sphere<S: Sampler<T>>(sampler: &mut S) -> (r: Option<Self>)
        requires
            defined::<T>(lit::<T>(1).neg_req()),
            forall|candidate: Self| #[trigger] candidate.inside_unit_sphere_req(),
        ensures
            exact::<T>() ==> exists|candidate: Self| r == #[trigger] candidate.kept_spec(),
    {
        let one: T = number(1);
        let p = Vec3::random_range(one.neg(), one, sampler);
        if p.inside_unit_sphere() {
            Some(p)
        } else {
            proof {
                if exact::<T>() {
                    assert(p.kept_spec() == None::<Self>);
                }
            }
            None
        }
    }

    /// One round of rejection sampling from the disk of radius one in the
    /// plane `z = 0`: draws `x` and `y` from -1 to 1 and keeps the candidate
    /// where it lies inside the disk. `None` asks for another round.
    pub fn random_in_unit_disk<S: Sampler<T>>(sampler: &mut S) -> (r: Option<Self>)
        requires
            defined::<T>(lit::<T>(1).neg_req()),
            forall|candidate: Self| #[trigger] candidate.inside_unit_sphere_req(),
        ensures
            exact::<T>() ==> exists|candidate: Self|
                candidate.z == lit::<T>(0) && r == #[trigger] candidate.kept_spec(),
    {
        let zero: T = number(0);
        let one: T = number(1);
        let x = sampler.uniform(one.neg(), one);
        let y = sampler.uniform(one.neg(), one);
        let p = Vec3 { x, y, z: zero };
        if p.inside_unit_sphere() {
            Some(p)
        } else {
            proof {
                if exact::<T>() {
                    assert(p.kept_spec() == None::<Self>);
                }
            }
            None
        }
    }

    /// A point of the ball of radius one, turned to the side of `normal`.
    pub fn random_in_hemisphere<S: Sampler<T>>(normal: Self, sampler: &mut S) -> (r: Self)
        requires
            forall|p: Self| #[trigger] p.turned_toward_req(normal),
        ensures
            exact::<T>() ==> exists|p: Self| r == #[trigger] p.turned_toward_spec(normal),
    {
        let in_unit_sphere = sampler.in_unit_sphere();
        in_unit_sphere.turned_toward(normal)
    }
}

impl<T: Real> Vec3<T> {
    /// A direction drawn evenly: a point of the ball of radius one, brought to
    /// length one.
    pub fn random_unit_vector<S: Sampler<T>>(sampler: &mut S) -> (r: Self)
        requires
            forall|p: Self| #[trigger] p.unit_vector_req(),
        ensures
            exact_real::<T>() ==> exists|p: Self| r == #[trigger] p.unit_vector_spec(),
    {
        sampler.in_unit_sphere().unit_vector()
    }
}

/// The vector `v` times the scalar `factor`, for a scalar written on the left.
pub fn scale<T: Arith>(factor: T, v: Vec3<T>) -> (r: Vec3<T>)
    requires
        v.scaled_req(factor),
    ensures
        exact::<T>() ==> r == v.scaled_spec(factor),
{
    v * factor
}

/// Mirroring turns the part along the normal round and keeps its size: on
/// the integers, for a normal `n` of length one, the mirrored vector times `n`
/// is minus the vector times `n`.
pub proof fn lemma_reflect_flips_normal_part(v: Vec3<i64>, n: Vec3<i64>)
    requires
        v.reflect_req(n),
        v.reflect_spec(n).dot_req(n),
        n.dot_req(n),
        n.dot_spec(n) == 1,
    ensures
        v.reflect_spec(n).dot_spec(n) == -v.dot_spec(n),
{
    let d: int = v.x * n.x + v.y * n.y + v.z * n.z;
    let w = v.reflect_spec(n);
    assert(v.dot_spec(n) == d);
    assert(lit::<i64>(2).mul_spec(v.dot_spec(n)) == 2 * d);
    assert(w.x == v.x - n.x * (2 * d));
    assert(w.y == v.y - n.y * (2 * d));
    assert(w.z == v.z - n.z * (2 * d));
    assert(n.x * n.x + n.y * n.y + n.z * n.z == 1);
    assert(w.dot_spec(n) == w.x * n.x + w.y * n.y + w.z * n.z);
    assert(w.x * n.x + w.y * n.y + w.z * n.z == -d) by (nonlinear_arith)
        requires
            d == v.x * n.x + v.y * n.y + v.z * n.z,
            n.x * n.x + n.y * n.y + n.z * n.z == 1,
            w.x == v.x - n.x * (2 * d),
            w.y == v.y - n.y * (2 * d),
            w.z == v.z - n.z * (2 * d),
    ;
}

/// An integer vector of length one has one component that is one or minus
/// one, and two that are zero.
pub proof fn lemma_integer_unit(v: Vec3<i64>)
    requires
        v.x * v.x + v.y * v.y + v.z * v.z == 1,
    ensures
        -1 <= v.x <= 1,
        -1 <= v.y <= 1,
        -1 <= v.z <= 1,
        (v.x != 0 && v.y == 0 && v.z == 0) || (v.x == 0 && v.y != 0 && v.z == 0) || (v.x == 0
            && v.y == 0 && v.z != 0),
{
    assert(0 <= v.x * v.x && 0 <= v.y * v.y && 0 <= v.z * v.z) by (nonlinear_arith);
    assert(-1 <= v.x <= 1) by (nonlinear_arith)
        requires
            v.x * v.x <= 1,
    ;
    assert(-1 <= v.y <= 1) by (nonlinear_arith)
        requires
            v.y * v.y <= 1,
    ;
    assert(-1 <= v.z <= 1) by (nonlinear_arith)
        requires
            v.z * v.z <= 1,
    ;
    assert(v.x != 0 ==> v.x * v.x == 1) by (nonlinear_arith)
        requires
            -1 <= v.x <= 1,
    ;
    assert(v.y != 0 ==> v.y * v.y == 1) by (nonlinear_arith)
        requires
            -1 <= v.y <= 1,
    ;
    assert(v.z != 0 ==> v.z * v.z == 1) by (nonlinear_arith)
        requires
            -1 <= v.z <= 1,
    ;
    assert(v.x == 0 ==> v.x * v.x == 0);
    assert(v.y == 0 ==> v.y * v.y == 0);
    assert(v.z == 0 ==> v.z * v.z == 0);
}

/// Between two media of the same index nothing bends: on the integers, a
/// vector of length one that runs against a normal of length one is not
/// changed by refraction with the ratio one.
pub proof fn lemma_refract_straight(v: Vec3<i64>, n: Vec3<i64>)
    requires
        v.refract_req(n, 1),
        v.dot_req(v),
        v.dot_spec(v) == 1,
        n.dot_req(n),
        n.dot_spec(n) == 1,
        v.dot_req(n),
        v.dot_spec(n) <= 0,
    ensures
        v.refract_spec(n, 1) == v,
{
    lemma_integer_unit(v);
    lemma_integer_unit(n);
    let w = v.opposite_spec();
    assert(w.x == -v.x && w.y == -v.y && w.z == -v.z);
    let along: int = v.x * n.x + v.y * n.y + v.z * n.z;
    assert(v.dot_spec(n) == along);
    assert(w.x * n.x + w.y * n.y + w.z * n.z == -along) by (nonlinear_arith)
        requires
            w.x == -v.x && w.y == -v.y && w.z == -v.z,
            along == v.x * n.x + v.y * n.y + v.z * n.z,
    ;
    assert(-1 <= along <= 0) by (nonlinear_arith)
        requires
            along == v.x * n.x + v.y * n.y + v.z * n.z,
            along <= 0,
            -1 <= v.x <= 1 && -1 <= v.y <= 1 && -1 <= v.z <= 1,
            -1 <= n.x <= 1 && -1 <= n.y <= 1 && -1 <= n.z <= 1,
            (v.x != 0 && v.y == 0 && v.z == 0) || (v.x == 0 && v.y != 0 && v.z == 0) || (v.x == 0
                && v.y == 0 && v.z != 0),
    ;
    assert(w.dot_spec(n) == -along);
    let cos: int = -along;
    assert(v.cos_against_spec(n) == cos);
    let across = v.refract_across_spec(n, 1);
    assert(across.x == v.x + n.x * cos);
    assert(across.y == v.y + n.y * cos);
    assert(across.z == v.z + n.z * cos);
    if cos == 0 {
        assert(across == v);
        assert(across.length_squared_spec() == 1);
        assert(v.refract_rest_spec(n, 1) == 0);
        assert(is_floor_sqrt(0, 0));
        lemma_floor_sqrt(0);
        lemma_floor_sqrt_unique(0, 0, floor_sqrt(0));
        assert(v.refract_rest_spec(n, 1).sqrt_spec() == 0);
        let k = v.refract_rest_spec(n, 1).sqrt_spec().neg_spec();
        assert(k == 0);
        let back = n.scaled_spec(k);
        assert(n.x * k == 0 && n.y * k == 0 && n.z * k == 0) by (nonlinear_arith)
            requires
                k == 0,
        ;
        assert(back.x == 0 && back.y == 0 && back.z == 0);
        let bent = v.refract_spec(n, 1);
        assert(bent.x == v.x && bent.y == v.y && bent.z == v.z);
    } else {
        assert(cos == 1);
        assert((v.x + n.x) * (v.x + n.x) + (v.y + n.y) * (v.y + n.y) + (v.z + n.z) * (v.z + n.z)
            == 0) by (nonlinear_arith)
            requires
                v.x * v.x + v.y * v.y + v.z * v.z == 1,
                n.x * n.x + n.y * n.y + n.z * n.z == 1,
                v.x * n.x + v.y * n.y + v.z * n.z == -1,
        ;
        assert(v.x + n.x == 0 && v.y + n.y == 0 && v.z + n.z == 0) by (nonlinear_arith)
            requires
                (v.x + n.x) * (v.x + n.x) + (v.y + n.y) * (v.y + n.y) + (v.z + n.z) * (v.z
                    + n.z) == 0,
        ;
        assert(across.x == 0 && across.y == 0 && across.z == 0);
        assert(across.length_squared_spec() == 0);
        assert(v.refract_rest_spec(n, 1) == 1);
        assert(is_floor_sqrt(1, 1));
        lemma_floor_sqrt(1);
        lemma_floor_sqrt_unique(1, 1, floor_sqrt(1));
        assert(v.refract_rest_spec(n, 1).sqrt_spec() == 1);
        let k = v.refract_rest_spec(n, 1).sqrt_spec().neg_spec();
        assert(k == -1);
        let back = n.scaled_spec(k);
        assert(n.x * k == -n.x && n.y * k == -n.y && n.z * k == -n.z) by (nonlinear_arith)
            requires
                k == -1,
        ;
        assert(back.x == -n.x && back.y == -n.y && back.z == -n.z);
        let bent = v.refract_spec(n, 1);
        assert(bent.x == v.x && bent.y == v.y && bent.z == v.z);
    }
}

} // verus!

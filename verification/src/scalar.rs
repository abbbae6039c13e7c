//! Scalars: what the tracer asks of the numbers it computes with.

use core::cmp::Ordering;
use core::ops::{Add, Div, Mul, Neg, Sub};
use vstd::prelude::*;
use vstd::std_specs::cmp::PartialOrdSpec;
use vstd::std_specs::convert::FromSpec;
use vstd::std_specs::ops::{AddSpec, DivSpec, MulSpec, NegSpec, SubSpec};

verus! {

/// The arithmetic of a scalar: the four operations, negation, the order, and
/// the small whole numbers.
pub trait Arith: Copy + Add<Output = Self> + Sub<Output = Self> + Mul<Output = Self> + Div<
    Output = Self,
> + Neg<Output = Self> + PartialOrd + From<i32> {

}

impl<
    T: Copy + Add<Output = T> + Sub<Output = T> + Mul<Output = T> + Div<Output = T> + Neg<
        Output = T,
    > + PartialOrd + From<i32>,
> Arith for T {

}

/// The order of `T` follows its specification.
pub open spec fn ordered<T: PartialOrd>() -> bool {
    T::obeys_partial_cmp_spec()
}

/// `a` is strictly below `b`.
pub open spec fn lt<T: PartialOrd>(a: T, b: T) -> bool {
    a.partial_cmp_spec(&b) == Some(Ordering::Less)
}

/// `a` is below or equal to `b`.
pub open spec fn le<T: PartialOrd>(a: T, b: T) -> bool {
    a.partial_cmp_spec(&b) == Some(Ordering::Less) || a.partial_cmp_spec(&b) == Some(
        Ordering::Equal,
    )
}

/// The order of `T` follows its specification and is a linear one: of two
/// values one lies below the other or they are the same, and what lies below
/// a value lies below all that lie above it.
pub open spec fn linear<T: PartialOrd>() -> bool {
    &&& ordered::<T>()
    &&& forall|a: T, b: T| #[trigger] le(a, b) <==> (lt(a, b) || a == b)
    &&& forall|a: T, b: T| #[trigger] lt(a, b) ==> !lt(b, a) && a != b
    &&& forall|a: T, b: T| #[trigger] lt(a, b) || a == b || lt(b, a)
    &&& forall|a: T, b: T, c: T| #[trigger] lt(a, b) && #[trigger] lt(b, c) ==> lt(a, c)
}

/// The integers are in linear order.
pub proof fn lemma_integers_linear()
    ensures
        linear::<i64>(),
{
}

/// In a linear order, what is not above a value is not above all that this
/// value is not above; and two values that are not above each other are the
/// same.
pub proof fn lemma_le<T: PartialOrd>(a: T, b: T, c: T)
    requires
        linear::<T>(),
    ensures
        le(a, a),
        le(a, b) && le(b, c) ==> le(a, c),
        lt(a, b) && le(b, c) ==> lt(a, c),
        le(a, b) && lt(b, c) ==> lt(a, c),
        le(a, b) && le(b, a) ==> a == b,
        le(a, b) || lt(b, a),
        !(le(a, b) && lt(b, a)),
{
    assert(le(a, a) <==> (lt(a, a) || a == a));
    assert(le(a, b) <==> (lt(a, b) || a == b));
    assert(le(b, c) <==> (lt(b, c) || b == c));
    assert(le(a, c) <==> (lt(a, c) || a == c));
    assert(le(b, a) <==> (lt(b, a) || b == a));
    assert(lt(a, b) || a == b || lt(b, a));
    assert(lt(a, b) ==> !lt(b, a) && a != b);
    assert(lt(b, a) ==> !lt(a, b) && b != a);
    assert(lt(a, b) && lt(b, c) ==> lt(a, c));
}

/// The operators of `T` follow their specifications: what an operator returns
/// is what its specification says.
pub open spec fn exact<T: Arith>() -> bool {
    &&& T::obeys_add_spec()
    &&& T::obeys_sub_spec()
    &&& T::obeys_mul_spec()
    &&& T::obeys_div_spec()
    &&& T::obeys_neg_spec()
    &&& ordered::<T>()
    &&& T::obeys_from_spec()
}

/// The operators of `T` are defined on every value.
pub open spec fn total<T: Arith>() -> bool {
    &&& forall|a: T, b: T| #[trigger] a.add_req(b)
    &&& forall|a: T, b: T| #[trigger] a.sub_req(b)
    &&& forall|a: T, b: T| #[trigger] a.mul_req(b)
    &&& forall|a: T, b: T| #[trigger] a.div_req(b)
    &&& forall|a: T| #[trigger] a.neg_req()
}

/// A computation whose steps are defined where `chain` holds may run: either
/// `T` is exact and `chain` holds, or the operators of `T` are total.
pub open spec fn defined<T: Arith>(chain: bool) -> bool {
    total::<T>() || (exact::<T>() && chain)
}

/// The scalar that stands for the whole number `n`.
pub open spec fn lit<T: Arith>(n: int) -> T
    recommends
        i32::MIN <= n <= i32::MAX,
{
    T::from_spec(n as i32)
}

/// The scalar that stands for the whole number `n`.
pub fn number<T: Arith>(n: i32) -> (r: T)
    ensures
        exact::<T>() ==> r == lit::<T>(n as int),
{
    T::from(n)
}

pub open spec fn ratio_req<T: Arith>(n: int, d: int) -> bool {
    defined::<T>(lit::<T>(n).div_req(lit::<T>(d)))
}

/// The scalar `n / d`.
pub open spec fn ratio_spec<T: Arith>(n: int, d: int) -> T {
    lit::<T>(n).div_spec(lit::<T>(d))
}

/// The scalar that stands for the fraction `n / d`.
pub fn ratio<T: Arith>(n: i32, d: i32) -> (r: T)
    requires
        ratio_req::<T>(n as int, d as int),
    ensures
        exact::<T>() ==> r == ratio_spec::<T>(n as int, d as int),
{
    number::<T>(n) / number::<T>(d)
}

/// Holds `input` between `min` and `max`: `min` where `input` is below it,
/// `max` where `input` is above it, else `input` itself.
pub open spec fn clamp_spec<T: PartialOrd>(input: T, min: T, max: T) -> T {
    if lt(input, min) {
        min
    } else if lt(max, input) {
        max
    } else {
        input
    }
}

/// Holds `input` between `min` and `max`.
pub fn clamp<T: PartialOrd>(input: T, min: T, max: T) -> (r: T)
    requires
        ordered::<T>() ==> le(min, max),
    ensures
        ordered::<T>() ==> r == clamp_spec(input, min, max),
{
    if input < min {
        return min;
    }
    if max < input {
        return max;
    }
    input
}

/// The smaller of `a` and `b`; `b` where neither is below the other.
pub open spec fn smaller_spec<T: PartialOrd>(a: T, b: T) -> T {
    if lt(a, b) {
        a
    } else {
        b
    }
}

/// The smaller of `a` and `b`.
pub fn smaller<T: PartialOrd>(a: T, b: T) -> (r: T)
    ensures
        ordered::<T>() ==> r == smaller_spec(a, b),
{
    if a < b {
        a
    } else {
        b
    }
}

pub open spec fn magnitude_req<T: Arith>(a: T) -> bool {
    defined::<T>(lt(a, lit::<T>(0)) ==> a.neg_req())
}

/// `a` without its sign: minus `a` where `a` is below zero, else `a`.
pub open spec fn magnitude_spec<T: Arith>(a: T) -> T {
    if lt(a, lit::<T>(0)) {
        a.neg_spec()
    } else {
        a
    }
}

/// The absolute value.
pub fn magnitude<T: Arith>(a: T) -> (r: T)
    requires
        magnitude_req(a),
    ensures
        exact::<T>() ==> r == magnitude_spec(a),
{
    let zero: T = number(0);
    if a < zero {
        a.neg()
    } else {
        a
    }
}

/// What the tracer asks of a scalar beyond its arithmetic: a square root, and
/// a value above every distance.
///
/// A scalar type says with `obeys_real_spec` whether its `sqrt` and `infinity`
/// return what `sqrt_spec` and `infinity_spec` say. One that leaves the three
/// as they stand here promises nothing of either result.
pub trait Real: Arith {
    open spec fn obeys_real_spec() -> bool {
        false
    }

    /// The values that have a square root.
    open spec fn sqrt_req(self) -> bool {
        true
    }

    open spec fn sqrt_spec(self) -> Self {
        self
    }

    open spec fn infinity_spec() -> Self {
        arbitrary()
    }

    /// The square root.
    fn sqrt(self) -> (r: Self)
        requires
            self.sqrt_req(),
        ensures
            Self::obeys_real_spec() ==> r == self.sqrt_spec(),
    ;

    /// A value that no distance along a ray exceeds.
    fn infinity() -> (r: Self)
        ensures
            Self::obeys_real_spec() ==> r == Self::infinity_spec(),
    ;
}

/// The operators of `T`, its square root and its infinity follow their
/// specifications.
pub open spec fn exact_real<T: Real>() -> bool {
    exact::<T>() && T::obeys_real_spec()
}

/// The operators of `T` and its square root are defined on every value.
pub open spec fn total_real<T: Real>() -> bool {
    &&& total::<T>()
    &&& forall|a: T| #[trigger] a.sqrt_req()
}

/// As `defined`, for a computation that takes square roots.
pub open spec fn defined_real<T: Real>(chain: bool) -> bool {
    total_real::<T>() || (exact_real::<T>() && chain)
}

/// `r` is the largest whole number whose square is not above `x`.
pub open spec fn is_floor_sqrt(x: int, r: int) -> bool {
    0 <= r && r * r <= x < (r + 1) * (r + 1)
}

/// The largest whole number whose square is not above `x`.
pub open spec fn floor_sqrt(x: int) -> int
    recommends
        0 <= x,
{
    choose|r: int| is_floor_sqrt(x, r)
}

/// At most one whole number is the floor of the square root of `x`.
pub proof fn lemma_floor_sqrt_unique(x: int, a: int, b: int)
    requires
        is_floor_sqrt(x, a),
        is_floor_sqrt(x, b),
    ensures
        a == b,
{
    assert(a == b) by (nonlinear_arith)
        requires
            0 <= a && a * a <= x < (a + 1) * (a + 1),
            0 <= b && b * b <= x < (b + 1) * (b + 1),
    ;
}

/// Every whole number from zero on has such a root.
pub proof fn lemma_floor_sqrt(x: int)
    requires
        0 <= x,
    ensures
        is_floor_sqrt(x, floor_sqrt(x)),
    decreases x,
{
    if x == 0 {
        assert(is_floor_sqrt(0, 0));
    } else {
        lemma_floor_sqrt(x - 1);
        let below: int = floor_sqrt(x - 1);
        if (below + 1) * (below + 1) <= x {
            assert(is_floor_sqrt(x, below + 1)) by (nonlinear_arith)
                requires
                    is_floor_sqrt(x - 1, below),
                    (below + 1) * (below + 1) <= x,
            ;
        } else {
            assert(is_floor_sqrt(x, below));
        }
    }
}

/// The integers are an exact scalar: the root of `x` is the largest whole
/// number whose square is not above `x`, and infinity is the largest integer.
impl Real for i64 {
    open spec fn obeys_real_spec() -> bool {
        true
    }

    open spec fn sqrt_req(self) -> bool {
        self >= 0
    }

    open spec fn sqrt_spec(self) -> i64 {
        floor_sqrt(self as int) as i64
    }

    open spec fn infinity_spec() -> i64 {
        i64::MAX
    }

    fn sqrt(self) -> (r: i64)
        ensures
            is_floor_sqrt(self as int, r as int),
    {
        let mut low: i64 = 0;
        let mut high: i64 = 3_037_000_500;
        assert(self < 3_037_000_500 * 3_037_000_500);
        while high - low > 1
            invariant
                0 <= low < high <= 3_037_000_500,
                low * low <= self < high * high,
            decreases high - low,
        {
            let mid: i64 = low + (high - low) / 2;
            assert(0 <= mid * mid <= 3_037_000_499 * 3_037_000_499) by (nonlinear_arith)
                requires
                    0 <= mid <= 3_037_000_499,
            ;
            if mid * mid <= self {
                low = mid;
            } else {
                high = mid;
            }
        }
        proof {
            let root: int = floor_sqrt(self as int);
            assert(is_floor_sqrt(self as int, low as int));
            lemma_floor_sqrt_unique(self as int, low as int, root);
        }
        low
    }

    fn infinity() -> (r: i64) {
        i64::MAX
    }
}

} // verus!

//! Where the tracer's random numbers come from.

use crate::vec3::Vec3;
use vstd::prelude::*;

verus! {

/// A source of random scalars and points. Nothing is promised of what it
/// hands out: every function that draws from one states what holds whatever
/// was drawn.
pub trait Sampler<T> {
    /// A scalar drawn evenly from `min` up to, and without, `max`.
    fn uniform(&mut self, min: T, max: T) -> T;

    /// A point drawn evenly from the inside of the ball of radius one.
    fn in_unit_sphere(&mut self) -> Vec3<T>;

    /// A point drawn evenly from the inside of the disk of radius one in the
    /// plane `z = 0`.
    fn in_unit_disk(&mut self) -> Vec3<T>;
}

} // verus!

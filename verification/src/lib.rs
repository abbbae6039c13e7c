//! A path tracer over spheres, generic in the scalar that it computes with.
//!
//! A scene is a list of spheres, each with a material: matt, mirroring or
//! clear. A camera turns a place on the image into a ray, and `ray_color`
//! follows the ray through the scene, bounce by bounce, to the light that
//! arrives along it.
//!
//! The scalar is any type with the four operations, negation and an order
//! (`Arith`), and for most of the tracer a square root (`Real`). The library
//! states what it computes over the specifications of these operators:
//!
//! - For a function `f`, the predicate `f_req` says where `f` is defined, and
//!   `f_spec` what it returns. `f` requires `f_req` and ensures, for an exact
//!   scalar, that its result is `f_spec`.
//! - A scalar is exact (`exact`, `exact_real`) where each of its operators
//!   returns what its specification says. The integers are, within their
//!   range; on them the contracts are checked against concrete values, and the
//!   laws of the geometry are proved.
//! - A scalar is total (`total`, `total_real`) where its operators are defined
//!   on every value. A scalar that is total but not exact can be traced with,
//!   and nothing is promised of the values that come out.
//! - What depends on chance is drawn from a `Sampler`, of which nothing is
//!   assumed. A function that draws has a counterpart that takes the drawn
//!   values as arguments (`scatter` and `scatter_with`). It requires that the
//!   counterpart is defined whatever is drawn, and ensures that its result is
//!   that of the counterpart for some values.

pub mod camera;
pub mod hittable;
pub mod material;
pub mod ray;
pub mod render;
pub mod sampler;
pub mod scalar;
pub mod vec3;
pub mod world;

//! The light that arrives along a ray, and the image made of it.

use crate::camera::Camera;
use crate::hittable::Hittable;
use crate::ray::Ray;
use crate::sampler::Sampler;
use crate::scalar::{
    clamp, clamp_spec, defined_real, exact, exact_real, le, lit, number, ratio, ratio_req,
    ratio_spec, total_real, Arith, Real,
};
use crate::vec3::{Color, Vec3};
use vstd::prelude::*;
use vstd::std_specs::ops::{AddSpec, DivSpec, MulSpec, SubSpec};

verus! {

/// No light.
pub open spec fn black<T: Arith>() -> Color<T> {
    Vec3 { x: lit::<T>(0), y: lit::<T>(0), z: lit::<T>(0) }
}

/// The colour of the sky straight ahead: white.
pub open spec fn horizon<T: Arith>() -> Color<T> {
    Vec3 { x: lit::<T>(1), y: lit::<T>(1), z: lit::<T>(1) }
}

/// The colour of the sky straight above: the blue `(1/2, 7/10, 1)`.
pub open spec fn zenith<T: Arith>() -> Color<T> {
    Vec3 {
        x: lit::<T>(1).div_spec(lit::<T>(2)),
        y: lit::<T>(7).div_spec(lit::<T>(10)),
        z: lit::<T>(1),
    }
}

/// How far up the direction of `ray` points, from zero for straight down to
/// one for straight up: `(y + 1) / 2` for the `y` of the direction brought to
/// length one.
pub open spec fn height_spec<T: Real>(ray: Ray<T>) -> T {
    lit::<T>(1).div_spec(lit::<T>(2)).mul_spec(
        ray.direction.unit_vector_spec().y.add_spec(lit::<T>(1)),
    )
}

pub open spec fn background_req<T: Real>(ray: Ray<T>) -> bool {
    let one = lit::<T>(1);
    let t = height_spec(ray);
    defined_real::<T>(
        {
            &&& ray.direction.unit_vector_req()
            &&& one.div_req(lit::<T>(2))
            &&& lit::<T>(7).div_req(lit::<T>(10))
            &&& ray.direction.unit_vector_spec().y.add_req(one)
            &&& one.div_spec(lit::<T>(2)).mul_req(ray.direction.unit_vector_spec().y.add_spec(one))
            &&& one.sub_req(t)
            &&& horizon::<T>().scaled_req(one.sub_spec(t))
            &&& zenith::<T>().scaled_req(t)
            &&& horizon::<T>().scaled_spec(one.sub_spec(t)).plus_req(zenith::<T>().scaled_spec(t))
        },
    )
}

/// The sky: `(1 - t) horizon + t zenith` for the height `t` of the ray.
pub open spec fn background_spec<T: Real>(ray: Ray<T>) -> Color<T> {
    let t = height_spec(ray);
    horizon::<T>().scaled_spec(lit::<T>(1).sub_spec(t)).plus_spec(zenith::<T>().scaled_spec(t))
}

/// The colour of the sky in the direction of `ray`.
pub fn background<T: Real>(ray: &Ray<T>) -> (r: Color<T>)
    requires
        background_req(*ray),
    ensures
        exact_real::<T>() ==> r == background_spec(*ray),
{
    let one: T = number(1);
    let half = one / number(2);
    let unit_direction = ray.direction.unit_vector();
    let t = half * (unit_direction.y + one);
    let white = Vec3::new(one, one, one);
    let blue = Vec3::new(half, number::<T>(7) / number(10), one);
    white * (one - t) + blue * t
}

/// The nearest that a hit may lie to the origin of its ray: a thousandth. A
/// ray that leaves a surface must not meet that surface again at once.
pub open spec fn nearest_hit_spec<T: Arith>() -> T {
    lit::<T>(1).div_spec(lit::<T>(1000))
}

/// `world` can be asked for a hit by any ray, between any bounds.
pub open spec fn always_hittable<T: Real, H: Hittable<T>>(world: H) -> bool {
    forall|ray: Ray<T>, t_min: T, t_max: T| #[trigger] world.hit_req(ray, t_min, t_max)
}

/// The light that arrives along `ray` after at most `depth` bounces, where
/// `draws` holds what is drawn at each bounce in turn: a point and a scalar.
///
/// With no bounce left it is black. A ray that meets nothing brings the sky.
/// A ray that meets a surface is scattered by the first of the draws: where
/// the surface swallows it, it brings black; else it brings what arrives along
/// the scattered ray after one bounce less, by the rest of the draws, each
/// colour by the share that the surface lets through.
pub open spec fn radiance_spec<T: Real, H: Hittable<T>>(
    world: H,
    ray: Ray<T>,
    depth: int,
    draws: Seq<(Vec3<T>, T)>,
) -> Color<T>
    decreases depth,
{
    if depth <= 0 {
        black::<T>()
    } else {
        match world.hit_spec(ray, nearest_hit_spec::<T>(), T::infinity_spec()) {
            None => background_spec(ray),
            Some(record) => match record.material.scatter_with_spec(
                ray,
                record,
                draws[0].0,
                draws[0].1,
            ) {
                None => black::<T>(),
                Some(scatter) => scatter.attenuation.tinted_spec(
                    radiance_spec(world, scatter.ray, depth - 1, draws.skip(1)),
                ),
            },
        }
    }
}

/// The light that arrives along `ray` from `world`, followed over at most
/// `depth` bounces.
pub fn ray_color<T: Real, H: Hittable<T>, S: Sampler<T>>(
    ray: &Ray<T>,
    world: &H,
    depth: i32,
    sampler: &mut S,
) -> (r: Color<T>)
    requires
        depth > 0 ==> total_real::<T>(),
        depth > 0 ==> always_hittable(*world),
    ensures
        exact::<T>() && depth <= 0 ==> r == black::<T>(),
        exact_real::<T>() && H::obeys_hit_spec() ==> exists|draws: Seq<(Vec3<T>, T)>|
            r == #[trigger] radiance_spec(*world, *ray, depth as int, draws),
    decreases depth,
{
    let zero: T = number(0);
    if depth <= 0 {
        proof {
            let none = Seq::<(Vec3<T>, T)>::empty();
            assert(black::<T>() == radiance_spec(*world, *ray, depth as int, none));
        }
        return Vec3::new(zero, zero, zero);
    }
    let near: T = number::<T>(1) / number(1000);
    if let Some(record) = world.hit(ray, near, T::infinity()) {
        let scattered = record.material.scatter(*ray, &record, sampler);
        match scattered {
            Some(scatter) => {
                let beyond = ray_color(&scatter.ray, world, depth - 1, sampler);
                let color = scatter.attenuation * beyond;
                proof {
                    if exact_real::<T>() && H::obeys_hit_spec() {
                        let (point, coin) = choose|point: Vec3<T>, coin: T|
                            scattered == #[trigger] record.material.scatter_with_spec(
                                *ray,
                                record,
                                point,
                                coin,
                            );
                        let rest = choose|rest: Seq<(Vec3<T>, T)>|
                            beyond == #[trigger] radiance_spec(
                                *world,
                                scatter.ray,
                                depth - 1,
                                rest,
                            );
                        let draws = seq![(point, coin)].add(rest);
                        assert(draws.skip(1) =~= rest);
                        assert(color == radiance_spec(*world, *ray, depth as int, draws));
                    }
                }
                return color;
            },
            None => {
                proof {
                    if exact_real::<T>() && H::obeys_hit_spec() {
                        let (point, coin) = choose|point: Vec3<T>, coin: T|
                            scattered == #[trigger] record.material.scatter_with_spec(
                                *ray,
                                record,
                                point,
                                coin,
                            );
                        let draws = seq![(point, coin)];
                        assert(black::<T>() == radiance_spec(*world, *ray, depth as int, draws));
                    }
                }
                return Vec3::new(zero, zero, zero);
            },
        }
    }
    proof {
        let none = Seq::<(Vec3<T>, T)>::empty();
        if exact_real::<T>() && H::obeys_hit_spec() {
            assert(background_spec(*ray) == radiance_spec(*world, *ray, depth as int, none));
        }
    }
    background(ray)
}

/// The size of an image, in pixels.
#[derive(Clone, Copy, Debug, PartialEq, Eq)]
pub struct Bounds {
    pub width: u32,
    pub height: u32,
}

/// How much work goes into each pixel.
#[derive(Clone, Copy, Debug, PartialEq, Eq)]
pub struct RenderParams {
    /// The number of rays that are sent through each pixel.
    pub samples_per_pixel: usize,
    /// The most bounces that a ray is followed over.
    pub depth: i32,
}

impl Bounds {
    /// An image with at least one pixel, whose sides can be counted by a
    /// signed 32-bit number.
    pub open spec fn wf(self) -> bool {
        1 <= self.width <= i32::MAX && 1 <= self.height <= i32::MAX
    }

    /// The column and the row of the pixel at `index`, where the pixels are
    /// counted row by row from the top, each row from the left.
    pub fn position(self, index: u32) -> (r: (u32, u32))
        requires
            self.width > 0,
        ensures
            r.0 == index % self.width,
            r.1 == index / self.width,
            r.1 * self.width + r.0 == index,
            r.0 < self.width,
    {
        proof {
            vstd::arithmetic::div_mod::lemma_fundamental_div_mod(
                index as int,
                self.width as int,
            );
        }
        (index % self.width, index / self.width)
    }
}

/// The place along one side of the image, from zero to one, of the pixel `k`
/// of `extent`, off by `jitter` of a pixel: `(k + jitter) / (extent - 1)`.
pub open spec fn place_spec<T: Arith>(k: u32, jitter: T, extent: u32) -> T {
    lit::<T>(k as int).add_spec(jitter).div_spec(lit::<T>(extent - 1))
}

/// The light of one ray through the pixel `(x, y)`, where `jitter_x`,
/// `jitter_y` and `disk` are what is drawn for the place in the pixel and on
/// the lens, and `draws` what is drawn at the bounces.
pub open spec fn sample_spec<T: Real, H: Hittable<T>>(
    camera: Camera<T>,
    world: H,
    x: u32,
    y: u32,
    bounds: Bounds,
    depth: int,
    jitter_x: T,
    jitter_y: T,
    disk: Vec3<T>,
    draws: Seq<(Vec3<T>, T)>,
) -> Color<T> {
    radiance_spec(
        world,
        camera.get_ray_through_spec(
            place_spec(x, jitter_x, bounds.width),
            place_spec(y, jitter_y, bounds.height),
            disk,
        ),
        depth,
        draws,
    )
}

/// `color` is the light of one ray through the pixel `(x, y)`, for something
/// that can be drawn.
pub open spec fn may_be_sample<T: Real, H: Hittable<T>>(
    camera: Camera<T>,
    world: H,
    x: u32,
    y: u32,
    bounds: Bounds,
    depth: int,
    color: Color<T>,
) -> bool {
    exists|jitter_x: T, jitter_y: T, disk: Vec3<T>, draws: Seq<(Vec3<T>, T)>|
        color == #[trigger] sample_spec(
            camera,
            world,
            x,
            y,
            bounds,
            depth,
            jitter_x,
            jitter_y,
            disk,
            draws,
        )
}

/// The light of one ray through a random place of the pixel `(x, y)`, where
/// `y` counts from the bottom of the image.
pub fn collect_sample<T: Real, H: Hittable<T>, S: Sampler<T>>(
    camera: &Camera<T>,
    world: &H,
    x: u32,
    y: u32,
    bounds: Bounds,
    depth: i32,
    sampler: &mut S,
) -> (r: Color<T>)
    requires
        total_real::<T>(),
        always_hittable(*world),
        bounds.wf(),
        x < bounds.width,
        y < bounds.height,
    ensures
        exact_real::<T>() && H::obeys_hit_spec() ==> may_be_sample(
            *camera,
            *world,
            x,
            y,
            bounds,
            depth as int,
            r,
        ),
{
    let zero: T = number(0);
    let one: T = number(1);
    let jitter_x = sampler.uniform(zero, one);
    let u = (number::<T>(x as i32) + jitter_x) / number((bounds.width - 1) as i32);
    let jitter_y = sampler.uniform(zero, one);
    let v = (number::<T>(y as i32) + jitter_y) / number((bounds.height - 1) as i32);

    let ray = camera.get_ray(u, v, sampler);
    let color = ray_color(&ray, world, depth, sampler);
    proof {
        if exact_real::<T>() && H::obeys_hit_spec() {
            let disk = choose|disk: Vec3<T>|
                ray == #[trigger] camera.get_ray_through_spec(u, v, disk);
            let draws = choose|draws: Seq<(Vec3<T>, T)>|
                color == #[trigger] radiance_spec(*world, ray, depth as int, draws);
            assert(color == sample_spec(
                *camera,
                *world,
                x,
                y,
                bounds,
                depth as int,
                jitter_x,
                jitter_y,
                disk,
                draws,
            ));
        }
    }
    color
}

/// Each of `samples` is the light of one ray through the pixel `(x, y)`, for
/// something that can be drawn.
pub open spec fn all_samples<T: Real, H: Hittable<T>>(
    camera: Camera<T>,
    world: H,
    x: u32,
    y: u32,
    bounds: Bounds,
    depth: int,
    samples: Seq<Color<T>>,
) -> bool {
    forall|i: int|
        0 <= i < samples.len() ==> may_be_sample(
            camera,
            world,
            x,
            y,
            bounds,
            depth,
            #[trigger] samples[i],
        )
}

/// The sum of the first `n` of `samples`, taken in turn from black.
pub open spec fn total_spec<T: Arith>(samples: Seq<Color<T>>, n: int) -> Color<T>
    decreases n,
{
    if n <= 0 {
        black::<T>()
    } else {
        total_spec(samples, n - 1).plus_spec(samples[n - 1])
    }
}

/// The light of the pixel `(x, y)`: the sum of the light of
/// `samples_per_pixel` rays through random places of it.
pub fn pixel_color<T: Real, H: Hittable<T>, S: Sampler<T>>(
    camera: &Camera<T>,
    world: &H,
    x: u32,
    y: u32,
    bounds: Bounds,
    params: RenderParams,
    sampler: &mut S,
) -> (r: Color<T>)
    requires
        total_real::<T>(),
        always_hittable(*world),
        bounds.wf(),
        x < bounds.width,
        y < bounds.height,
    ensures
        exact_real::<T>() && H::obeys_hit_spec() ==> exists|samples: Seq<Color<T>>|
            samples.len() == params.samples_per_pixel && all_samples(
                *camera,
                *world,
                x,
                y,
                bounds,
                params.depth as int,
                samples,
            ) && r == #[trigger] total_spec(samples, samples.len() as int),
{
    let zero: T = number(0);
    let mut sum = Vec3::new(zero, zero, zero);
    let ghost mut samples = Seq::<Color<T>>::empty();
    let mut i: usize = 0;
    while i < params.samples_per_pixel
        invariant
            i <= params.samples_per_pixel,
            total_real::<T>(),
            always_hittable(*world),
            bounds.wf(),
            x < bounds.width,
            y < bounds.height,
            samples.len() == i,
            exact::<T>() ==> sum == total_spec(samples, i as int),
            exact_real::<T>() && H::obeys_hit_spec() ==> all_samples(
                *camera,
                *world,
                x,
                y,
                bounds,
                params.depth as int,
                samples,
            ),
        decreases params.samples_per_pixel - i,
    {
        let sample = collect_sample(camera, world, x, y, bounds, params.depth, sampler);
        proof {
            let before = samples;
            samples = samples.push(sample);
            assert(samples.drop_last() =~= before);
            assert forall|k: int| 0 <= k <= i implies total_spec(samples, k) == total_spec(
                before,
                k,
            ) by {
                lemma_total_prefix(before, sample, k);
            }
        }
        sum = sum + sample;
        i += 1;
    }
    sum
}

/// The sum of the first `n` samples does not depend on what follows them.
pub proof fn lemma_total_prefix<T: Arith>(samples: Seq<Color<T>>, next: Color<T>, n: int)
    requires
        n <= samples.len(),
    ensures
        total_spec(samples.push(next), n) == total_spec(samples, n),
    decreases n,
{
    if n > 0 {
        lemma_total_prefix(samples, next, n - 1);
    }
}

/// The most that a channel is let to hold before it is spread over the 256
/// levels: 999 thousandths.
pub open spec fn ceiling_spec<T: Arith>() -> T {
    ratio_spec::<T>(999, 1000)
}

/// The root of a channel's share of the light, held between zero and
/// `ceiling_spec`. A scalar for which zero does not lie below the ceiling
/// keeps the root as it is.
pub open spec fn held_spec<T: Real>(sum: T, scale: T) -> T {
    let root = sum.mul_spec(scale).sqrt_spec();
    if le(lit::<T>(0), ceiling_spec::<T>()) {
        clamp_spec(root, lit::<T>(0), ceiling_spec::<T>())
    } else {
        root
    }
}

pub open spec fn channel_level_req<T: Real>(sum: T, scale: T) -> bool {
    defined_real::<T>(
        {
            &&& sum.mul_req(scale)
            &&& sum.mul_spec(scale).sqrt_req()
            &&& ratio_req::<T>(999, 1000)
            &&& lit::<T>(256).mul_req(held_spec(sum, scale))
        },
    )
}

/// `256 clamp(sqrt(sum scale), 0, 0.999)`: the root corrects for a gamma of
/// two.
pub open spec fn channel_level_spec<T: Real>(sum: T, scale: T) -> T {
    lit::<T>(256).mul_spec(held_spec(sum, scale))
}

/// The level of a channel of a pixel, from 0 up to and without 256, of which
/// the whole part is stored: `sum` is the sum of the samples and `scale` one
/// over their number.
pub fn channel_level<T: Real>(sum: T, scale: T) -> (r: T)
    requires
        channel_level_req(sum, scale),
    ensures
        exact_real::<T>() ==> r == channel_level_spec(sum, scale),
{
    let zero: T = number(0);
    let top: T = ratio(999, 1000);
    let root = (sum * scale).sqrt();
    let held = if zero <= top {
        clamp(root, zero, top)
    } else {
        root
    };
    number::<T>(256) * held
}

} // verus!

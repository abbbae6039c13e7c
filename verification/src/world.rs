//! Scenes to look at.

use crate::hittable::sphere::Sphere;
use crate::material::dielectric::Dielectric;
use crate::material::lambertian::Lambertian;
use crate::material::metal::Metal;
use crate::material::Material;
use crate::sampler::Sampler;
use crate::scalar::{
    exact, exact_real, lit, lt, number, ratio, ratio_req, ratio_spec, total_real, Arith, Real,
};
use crate::vec3::{Color, Point3, Vec3};
use vstd::prelude::*;
use vstd::std_specs::ops::{AddSpec, MulSpec};

verus! {

pub open spec fn test_world_req<T: Arith>() -> bool {
    &&& ratio_req::<T>(8, 10)
    &&& ratio_req::<T>(1, 10)
    &&& ratio_req::<T>(2, 10)
    &&& ratio_req::<T>(1, 2)
    &&& ratio_req::<T>(3, 2)
    &&& ratio_req::<T>(6, 10)
    &&& ratio_req::<T>(-201, 2)
    &&& ratio_req::<T>(-45, 100)
}

/// Five spheres: a large one as the ground, and on it a matt one between a
/// hollow one of glass and one of metal.
pub open spec fn test_world_spec<T: Arith>() -> Seq<Sphere<T>> {
    let glass = Material::Dielectric(Dielectric { ir: ratio_spec::<T>(3, 2) });
    seq![
        Sphere {
            center: Vec3 { x: lit::<T>(0), y: ratio_spec::<T>(-201, 2), z: lit::<T>(-1) },
            radius: lit::<T>(100),
            material: Material::Lambertian(
                Lambertian {
                    albedo: Vec3 {
                        x: ratio_spec::<T>(8, 10),
                        y: ratio_spec::<T>(8, 10),
                        z: lit::<T>(0),
                    },
                },
            ),
        },
        Sphere {
            center: Vec3 { x: lit::<T>(0), y: lit::<T>(0), z: lit::<T>(-1) },
            radius: ratio_spec::<T>(1, 2),
            material: Material::Lambertian(
                Lambertian {
                    albedo: Vec3 {
                        x: ratio_spec::<T>(1, 10),
                        y: ratio_spec::<T>(2, 10),
                        z: ratio_spec::<T>(1, 2),
                    },
                },
            ),
        },
        Sphere {
            center: Vec3 { x: lit::<T>(-1), y: lit::<T>(0), z: lit::<T>(-1) },
            radius: ratio_spec::<T>(1, 2),
            material: glass,
        },
        Sphere {
            center: Vec3 { x: lit::<T>(-1), y: lit::<T>(0), z: lit::<T>(-1) },
            radius: ratio_spec::<T>(-45, 100),
            material: glass,
        },
        Sphere {
            center: Vec3 { x: lit::<T>(1), y: lit::<T>(0), z: lit::<T>(-1) },
            radius: ratio_spec::<T>(1, 2),
            material: Material::Metal(
                Metal {
                    albedo: Vec3 {
                        x: ratio_spec::<T>(8, 10),
                        y: ratio_spec::<T>(6, 10),
                        z: ratio_spec::<T>(2, 10),
                    },
                    fuzz: Metal::<T>::fuzz_spec(lit::<T>(0)),
                },
            ),
        },
    ]
}

/// A small scene with one sphere of each material.
pub fn test_world<T: Arith>() -> (r: Vec<Sphere<T>>)
    requires
        test_world_req::<T>(),
    ensures
        exact::<T>() ==> r@ == test_world_spec::<T>(),
{
    let zero: T = number(0);
    let half: T = ratio(1, 2);
    let material_ground = Lambertian::new(Vec3::new(ratio(8, 10), ratio(8, 10), zero));
    let material_center = Lambertian::new(Vec3::new(ratio(1, 10), ratio(2, 10), half));
    let material_left = Dielectric::new(ratio(3, 2));
    let material_right = Metal::new(Vec3::new(ratio(8, 10), ratio(6, 10), ratio(2, 10)), zero);
    let mut world: Vec<Sphere<T>> = Vec::new();
    world.push(
        Sphere::new(
            Vec3::new(zero, ratio(-201, 2), number(-1)),
            number(100),
            Material::Lambertian(material_ground),
        ),
    );
    world.push(
        Sphere::new(Vec3::new(zero, zero, number(-1)), half, Material::Lambertian(material_center)),
    );
    world.push(
        Sphere::new(
            Vec3::new(number(-1), zero, number(-1)),
            half,
            Material::Dielectric(material_left),
        ),
    );
    world.push(
        Sphere::new(
            Vec3::new(number(-1), zero, number(-1)),
            ratio(-45, 100),
            Material::Dielectric(material_left),
        ),
    );
    world.push(
        Sphere::new(
            Vec3::new(number(1), zero, number(-1)),
            half,
            Material::Metal(material_right),
        ),
    );
    proof {
        if exact::<T>() {
            assert(world@ =~= test_world_spec::<T>());
        }
    }
    world
}

/// The ground of the large scene: a grey sphere of radius 1000 under the
/// plane `y = 0`.
pub open spec fn ground_spec<T: Arith>() -> Sphere<T> {
    Sphere {
        center: Vec3 { x: lit::<T>(0), y: lit::<T>(-1000), z: lit::<T>(0) },
        radius: lit::<T>(1000),
        material: Material::Lambertian(
            Lambertian {
                albedo: Vec3 {
                    x: ratio_spec::<T>(1, 2),
                    y: ratio_spec::<T>(1, 2),
                    z: ratio_spec::<T>(1, 2),
                },
            },
        ),
    }
}

/// The three large spheres of the large scene: glass in the middle, a matt
/// one behind it and a clean mirror before it.
pub open spec fn large_spheres_spec<T: Arith>() -> Seq<Sphere<T>> {
    seq![
        Sphere {
            center: Vec3 { x: lit::<T>(0), y: lit::<T>(1), z: lit::<T>(0) },
            radius: lit::<T>(1),
            material: Material::Dielectric(Dielectric { ir: ratio_spec::<T>(3, 2) }),
        },
        Sphere {
            center: Vec3 { x: lit::<T>(-4), y: lit::<T>(1), z: lit::<T>(0) },
            radius: lit::<T>(1),
            material: Material::Lambertian(
                Lambertian {
                    albedo: Vec3 {
                        x: ratio_spec::<T>(4, 10),
                        y: ratio_spec::<T>(2, 10),
                        z: ratio_spec::<T>(1, 10),
                    },
                },
            ),
        },
        Sphere {
            center: Vec3 { x: lit::<T>(4), y: lit::<T>(1), z: lit::<T>(0) },
            radius: lit::<T>(1),
            material: Material::Metal(
                Metal {
                    albedo: Vec3 {
                        x: ratio_spec::<T>(7, 10),
                        y: ratio_spec::<T>(6, 10),
                        z: ratio_spec::<T>(1, 2),
                    },
                    fuzz: Metal::<T>::fuzz_spec(lit::<T>(0)),
                },
            ),
        },
    ]
}

/// The centre of the small sphere of the cell `(a, b)`, off its corner by
/// nine tenths of what was drawn: `(a + 0.9 jitter_x, 0.2, b + 0.9 jitter_z)`.
pub open spec fn small_center_spec<T: Arith>(a: int, b: int, jitter_x: T, jitter_z: T) -> Point3<
    T,
> {
    Vec3 {
        x: lit::<T>(a).add_spec(ratio_spec::<T>(9, 10).mul_spec(jitter_x)),
        y: ratio_spec::<T>(2, 10),
        z: lit::<T>(b).add_spec(ratio_spec::<T>(9, 10).mul_spec(jitter_z)),
    }
}

/// Whether a small sphere at `center` lies farther than nine tenths from the
/// point `(4, 0.2, 0)`.
pub open spec fn lies_apart_spec<T: Real>(center: Point3<T>) -> bool {
    lt(
        ratio_spec::<T>(9, 10),
        center.minus_spec(
            Vec3 { x: lit::<T>(4), y: ratio_spec::<T>(2, 10), z: lit::<T>(0) },
        ).length_spec(),
    )
}

/// The material of a small sphere at `center`. One that lies apart is matt,
/// with the product of the colours `first` and `second`. Of the others, one
/// for which `choose_mat` is below 95 hundredths is a mirror of the colour
/// `first` and the roughness `fuzz`, and the rest are glass.
pub open spec fn small_material_spec<T: Real>(
    center: Point3<T>,
    choose_mat: T,
    first: Color<T>,
    second: Color<T>,
    fuzz: T,
) -> Material<T> {
    if lies_apart_spec(center) {
        Material::Lambertian(Lambertian { albedo: first.tinted_spec(second) })
    } else if lt(choose_mat, ratio_spec::<T>(95, 100)) {
        Material::Metal(Metal { albedo: first, fuzz: Metal::<T>::fuzz_spec(fuzz) })
    } else {
        Material::Dielectric(Dielectric { ir: ratio_spec::<T>(3, 2) })
    }
}

/// `sphere` is a small sphere of the cell `(a, b)`, for something that can be
/// drawn: its radius is a fifth, its centre is `small_center_spec` and its
/// material `small_material_spec`.
pub open spec fn is_small_sphere<T: Real>(sphere: Sphere<T>, a: int, b: int) -> bool {
    &&& sphere.radius == ratio_spec::<T>(2, 10)
    &&& exists|jitter_x: T, jitter_z: T|
        sphere.center == #[trigger] small_center_spec(a, b, jitter_x, jitter_z)
    &&& exists|choose_mat: T, first: Color<T>, second: Color<T>, fuzz: T|
        sphere.material == #[trigger] small_material_spec(
            sphere.center,
            choose_mat,
            first,
            second,
            fuzz,
        )
}

/// One small sphere of the large scene, for the cell `(a, b)` of the grid.
pub fn small_sphere<T: Real, S: Sampler<T>>(a: i32, b: i32, sampler: &mut S) -> (r: Sphere<T>)
    requires
        total_real::<T>(),
    ensures
        exact_real::<T>() ==> is_small_sphere(r, a as int, b as int),
{
    let zero: T = number(0);
    let half: T = ratio(1, 2);
    let one: T = number(1);
    let fifth: T = ratio(2, 10);
    let nine_tenths: T = ratio(9, 10);

    let choose_mat = sampler.uniform(zero, one);
    let jitter_x = sampler.uniform(zero, one);
    let jitter_z = sampler.uniform(zero, one);
    let center = Vec3::new(
        number::<T>(a) + nine_tenths * jitter_x,
        fifth,
        number::<T>(b) + nine_tenths * jitter_z,
    );
    proof {
        if exact_real::<T>() {
            assert(center == small_center_spec(a as int, b as int, jitter_x, jitter_z));
        }
    }

    if nine_tenths < (center - Vec3::new(number(4), fifth, zero)).length() {
        let first = Vec3::random(zero, one, sampler);
        let second = Vec3::random(zero, one, sampler);
        let albedo = first * second;
        let sphere = Sphere::new(center, fifth, Material::Lambertian(Lambertian::new(albedo)));
        proof {
            if exact_real::<T>() {
                assert(sphere.material == small_material_spec(
                    center,
                    choose_mat,
                    first,
                    second,
                    zero,
                ));
            }
        }
        sphere
    } else if choose_mat < ratio(95, 100) {
        let albedo = Vec3::random(half, one, sampler);
        let fuzz = sampler.uniform(zero, half);
        let sphere = Sphere::new(center, fifth, Material::Metal(Metal::new(albedo, fuzz)));
        proof {
            if exact_real::<T>() {
                assert(sphere.material == small_material_spec(
                    center,
                    choose_mat,
                    albedo,
                    albedo,
                    fuzz,
                ));
            }
        }
        sphere
    } else {
        let sphere = Sphere::new(
            center,
            fifth,
            Material::Dielectric(Dielectric::new(ratio(3, 2))),
        );
        proof {
            if exact_real::<T>() {
                assert(sphere.material == small_material_spec(
                    center,
                    choose_mat,
                    center,
                    center,
                    zero,
                ));
            }
        }
        sphere
    }
}

/// The large scene: the ground, then one small sphere for each cell of the
/// grid from -11 up to and without 11 in `x` and in `z`, row by row, then the
/// three large spheres.
pub fn book_cover_scene<T: Real, S: Sampler<T>>(sampler: &mut S) -> (r: Vec<Sphere<T>>)
    requires
        total_real::<T>(),
    ensures
        r.len() == 488,
        exact_real::<T>() ==> r[0] == ground_spec::<T>(),
        exact_real::<T>() ==> forall|k: int|
            0 <= k < 484 ==> is_small_sphere(#[trigger] r[1 + k], k / 22 - 11, k % 22 - 11),
        exact_real::<T>() ==> r@.subrange(485, 488) == large_spheres_spec::<T>(),
{
    let zero: T = number(0);
    let one: T = number(1);
    let half: T = ratio(1, 2);
    let mut scene: Vec<Sphere<T>> = Vec::new();

    scene.push(
        Sphere::new(
            Vec3::new(zero, number(-1000), zero),
            number(1000),
            Material::Lambertian(Lambertian::new(Vec3::new(half, half, half))),
        ),
    );

    let mut a: i32 = -11;
    while a < 11
        invariant
            -11 <= a <= 11,
            total_real::<T>(),
            scene.len() == 1 + (a + 11) * 22,
            exact_real::<T>() ==> scene[0] == ground_spec::<T>(),
            exact_real::<T>() ==> forall|k: int|
                0 <= k < (a + 11) * 22 ==> is_small_sphere(
                    #[trigger] scene[1 + k],
                    k / 22 - 11,
                    k % 22 - 11,
                ),
        decreases 11 - a,
    {
        let mut b: i32 = -11;
        while b < 11
            invariant
                -11 <= a < 11,
                -11 <= b <= 11,
                total_real::<T>(),
                scene.len() == 1 + (a + 11) * 22 + (b + 11),
                exact_real::<T>() ==> scene[0] == ground_spec::<T>(),
                exact_real::<T>() ==> forall|k: int|
                    0 <= k < (a + 11) * 22 + (b + 11) ==> is_small_sphere(
                        #[trigger] scene[1 + k],
                        k / 22 - 11,
                        k % 22 - 11,
                    ),
            decreases 11 - b,
        {
            let sphere = small_sphere(a, b, sampler);
            proof {
                let k: int = (a + 11) * 22 + (b + 11);
                assert(k / 22 == a + 11 && k % 22 == b + 11) by (nonlinear_arith)
                    requires
                        k == (a + 11) * 22 + (b + 11),
                        0 <= b + 11 < 22,
                        0 <= a + 11,
                ;
            }
            scene.push(sphere);
            b += 1;
        }
        a += 1;
    }

    scene.push(
        Sphere::new(
            Vec3::new(zero, one, zero),
            one,
            Material::Dielectric(Dielectric::new(ratio(3, 2))),
        ),
    );
    scene.push(
        Sphere::new(
            Vec3::new(number(-4), one, zero),
            one,
            Material::Lambertian(
                Lambertian::new(Vec3::new(ratio(4, 10), ratio(2, 10), ratio(1, 10))),
            ),
        ),
    );
    scene.push(
        Sphere::new(
            Vec3::new(number(4), one, zero),
            one,
            Material::Metal(Metal::new(Vec3::new(ratio(7, 10), ratio(6, 10), half), zero)),
        ),
    );
    proof {
        if exact_real::<T>() {
            assert(scene@.subrange(485, 488) =~= large_spheres_spec::<T>());
        }
    }
    scene
}

} // verus!

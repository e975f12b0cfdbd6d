//! The light-transport integrator: the radiance that arrives along a ray.
use crate::arithmetic::{exact, Arithmetic};
use crate::colour::Colour;
use crate::hittable::{lemma_hit_material, HitRecord, Hittable};
use crate::material::lemma_scatter_is_settled;
use crate::random::{settled, RandomSource};
use crate::ray::Ray;
use crate::scalar::{Scalar, INFINITY, SHADOW_EPSILON};
use crate::scenes::Scene;
use vstd::prelude::*;

verus! {

/// What `ray` hits first in `scene`. Hits nearer than `0.001` are passed
/// over: they are the surface that a bounced ray has just left.
pub open spec fn spec_first_hit<A: Arithmetic>(ar: &A, scene: Scene, ray: Ray) -> Option<HitRecord> {
    scene.world.spec_hit(ar, ray, Scalar { bits: SHADOW_EPSILON }, Scalar { bits: INFINITY })
}

/// The ray that leaves a scattering; of an absorption, no ray in particular.
pub open spec fn scattered_ray(scattered: Option<(Ray, Colour)>) -> Ray {
    (scattered->0).0
}

/// `colour` is what leaves a surface that emits `emitted` and scatters as
/// `scattered` says, when `incoming` arrives along the scattered ray: the
/// emission alone where the light is absorbed, and else
/// `emitted + attenuation * incoming`.
pub open spec fn spec_shade<A: Arithmetic>(
    ar: &A,
    emitted: Colour,
    scattered: Option<(Ray, Colour)>,
    incoming: Colour,
) -> Colour {
    match scattered {
        None => emitted,
        Some(s) => emitted.spec_plus(ar, s.1.spec_times(ar, incoming)),
    }
}

/// `colour` is a radiance that may arrive along `ray` over paths of at most
/// `depth` bounces, with random values drawn from `source`.
///
/// No bounce left: black. A ray that hits nothing sees the background. A ray
/// that hits a surface gets what the surface emits, and, where the surface
/// scatters it, the attenuated radiance of the scattered ray with one bounce
/// fewer on top.
pub open spec fn radiates<A: Arithmetic, S: RandomSource>(
    ar: &A,
    source: &S,
    scene: Scene,
    ray: Ray,
    depth: u64,
    colour: Colour,
) -> bool
    decreases depth,
{
    if depth == 0 {
        colour == Colour::spec_black()
    } else {
        match spec_first_hit(ar, scene, ray) {
            None => colour == scene.background.spec_colour(ar, ray),
            Some(hit_record) => exists|scattered: Option<(Ray, Colour)>, incoming: Colour|
                {
                    &&& scene.materials@[hit_record.material as int].may_scatter(
                        ar,
                        source,
                        ray,
                        hit_record,
                        scattered,
                    )
                    &&& scattered is Some ==> radiates(
                        ar,
                        source,
                        scene,
                        scattered_ray(scattered),
                        (depth - 1) as u64,
                        incoming,
                    )
                    &&& colour == #[trigger] spec_shade(
                        ar,
                        scene.materials@[hit_record.material as int].spec_emitted(
                            hit_record.u,
                            hit_record.v,
                            hit_record.point,
                        ),
                        scattered,
                        incoming,
                    )
                },
        }
    }
}

/// In a scene without geometry every path ends at once: with a bounce to
/// spend, whatever arrives along a ray is the background in its direction.
pub proof fn lemma_empty_scene_shows_background<A: Arithmetic, S: RandomSource>(
    ar: &A,
    source: &S,
    scene: Scene,
    ray: Ray,
    depth: u64,
    colour: Colour,
)
    requires
        scene.world matches Hittable::List(list) && list.hittables@.len() == 0,
        depth > 0,
        radiates(ar, source, scene, ray, depth, colour),
    ensures
        colour == scene.background.spec_colour(ar, ray),
{
    let t_min = Scalar { bits: SHADOW_EPSILON };
    let t_max = Scalar { bits: INFINITY };
    if let Hittable::List(list) = &scene.world {
        assert(list.spec_hit(ar, ray, t_min, t_max) is None);
    }
}

/// With no bounce to spend, whatever arrives along a ray is black, in every
/// scene.
pub proof fn lemma_exhausted_path_is_black<A: Arithmetic, S: RandomSource>(
    ar: &A,
    source: &S,
    scene: Scene,
    ray: Ray,
    colour: Colour,
)
    requires
        radiates(ar, source, scene, ray, 0, colour),
    ensures
        colour == Colour::spec_black(),
{
}

/// With settled draws one radiance only may arrive along a ray: whatever
/// chance there is in the integrator comes from the source.
pub proof fn lemma_radiance_is_settled<A: Arithmetic, S: RandomSource>(
    ar: &A,
    source: &S,
    scene: Scene,
    ray: Ray,
    depth: u64,
    first: Colour,
    second: Colour,
)
    requires
        settled(source),
        radiates(ar, source, scene, ray, depth, first),
        radiates(ar, source, scene, ray, depth, second),
    ensures
        first == second,
    decreases depth,
{
    if depth > 0 {
        if let Some(hit_record) = spec_first_hit(ar, scene, ray) {
            let material = scene.materials@[hit_record.material as int];
            let emitted = material.spec_emitted(hit_record.u, hit_record.v, hit_record.point);
            let (s1, i1) = choose|scattered: Option<(Ray, Colour)>, incoming: Colour|
                {
                    &&& material.may_scatter(ar, source, ray, hit_record, scattered)
                    &&& scattered is Some ==> radiates(
                        ar,
                        source,
                        scene,
                        scattered_ray(scattered),
                        (depth - 1) as u64,
                        incoming,
                    )
                    &&& first == #[trigger] spec_shade(ar, emitted, scattered, incoming)
                };
            let (s2, i2) = choose|scattered: Option<(Ray, Colour)>, incoming: Colour|
                {
                    &&& material.may_scatter(ar, source, ray, hit_record, scattered)
                    &&& scattered is Some ==> radiates(
                        ar,
                        source,
                        scene,
                        scattered_ray(scattered),
                        (depth - 1) as u64,
                        incoming,
                    )
                    &&& second == #[trigger] spec_shade(ar, emitted, scattered, incoming)
                };
            lemma_scatter_is_settled(&material, ar, source, ray, hit_record, s1, s2);
            if s1 is Some {
                lemma_radiance_is_settled(
                    ar,
                    source,
                    scene,
                    scattered_ray(s1),
                    (depth - 1) as u64,
                    i1,
                    i2,
                );
            }
        }
    }
}

/// The radiance that arrives along `ray`, followed for at most `depth`
/// bounces.
pub fn ray_colour<A: Arithmetic, S: RandomSource>(
    ar: &A,
    source: &S,
    ray: &Ray,
    scene: &Scene,
    depth: u64,
) -> (r: Colour)
    requires
        exact(ar),
        scene.well_formed(),
    ensures
        radiates(ar, source, *scene, *ray, depth, r),
        depth == 0 ==> r == Colour::spec_black(),
        depth > 0 && spec_first_hit(ar, *scene, *ray) is None ==> r == scene.background.spec_colour(
            ar,
            *ray,
        ),
    decreases depth,
{
    if depth == 0 {
        return Colour::black();
    }
    let t_min: Scalar = Scalar { bits: SHADOW_EPSILON };
    let t_max: Scalar = Scalar { bits: INFINITY };
    proof {
        lemma_hit_material(&scene.world, ar, *ray, t_min, t_max, scene.materials.len());
    }
    if let Some(hit_record) = scene.world.hit(ar, ray, t_min, t_max) {
        let material = &scene.materials[hit_record.material];
        let emitted: Colour = material.emitted(hit_record.u, hit_record.v, hit_record.point);
        let scattered = material.scatter(ar, source, ray, &hit_record);
        if let Some((next, attenuation)) = scattered {
            let incoming: Colour = ray_colour(ar, source, &next, scene, depth - 1);
            let r: Colour = emitted.plus(ar, attenuation.times(ar, incoming));
            assert(r == spec_shade(ar, emitted, scattered, incoming));
            r
        } else {
            assert(emitted == spec_shade(ar, emitted, scattered, Colour::spec_black()));
            emitted
        }
    } else {
        scene.background.colour(ar, ray)
    }
}

} // verus!

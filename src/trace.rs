//! The analytic path tracer: nearest hit over a list of shapes, then a
//! recursive random bounce.
use vstd::prelude::*;

use crate::hit::{Intersectable, RayHit};
use crate::ray::Ray;
use crate::sampling::{
    all_in_unit_cube, first_sample, in_unit_cube, lemma_prepend_sample, later_samples,
    rand_in_hemisphere, scatter, shade, sky_color,
    spec_hemisphere, spec_scatter, spec_shade, spec_sky,
};
use crate::vector3::Vector3;

verus! {

pub open spec fn all_shapes_wf<O: Intersectable>(objects: Seq<O>) -> bool {
    forall|i: int| 0 <= i < objects.len() ==> #[trigger] objects[i].wf_shape()
}

/// The hit with the smallest positive distance; among equal distances the
/// first shape's.
pub open spec fn nearest_hit<O: Intersectable>(objects: Seq<O>, ray: Ray) -> Option<RayHit>
    decreases objects.len(),
{
    if objects.len() == 0 {
        None
    } else {
        let best = nearest_hit(objects.drop_last(), ray);
        match objects.last().spec_intersect(ray) {
            Some(h) => {
                if h.distance > 0 && match best {
                    None => true,
                    Some(b) => h.distance < b.distance,
                } {
                    Some(h)
                } else {
                    best
                }
            },
            None => best,
        }
    }
}

/// `o` has a hit in front of the ray's origin.
pub open spec fn hits_ahead<O: Intersectable>(o: O, ray: Ray) -> bool {
    match o.spec_intersect(ray) {
        Some(g) => g.distance > 0,
        None => false,
    }
}

/// The distance of `o`'s hit (zero where there is none).
pub open spec fn hit_distance<O: Intersectable>(o: O, ray: Ray) -> int {
    match o.spec_intersect(ray) {
        Some(g) => g.distance as int,
        None => 0,
    }
}

/// The nearest hit is the hit of one of the shapes, lies in front of the
/// origin, and no shape has a nearer hit in front of the origin; there is
/// none exactly when no shape has a hit in front of the origin.
pub proof fn lemma_nearest_hit_is_nearest<O: Intersectable>(objects: Seq<O>, ray: Ray)
    ensures
        match nearest_hit(objects, ray) {
            Some(h) => {
                &&& h.distance > 0
                &&& exists|i: int|
                    0 <= i < objects.len() && #[trigger] objects[i].spec_intersect(ray) == Some(h)
                &&& forall|i: int|
                    0 <= i < objects.len() && hits_ahead(#[trigger] objects[i], ray) ==> h.distance
                        <= hit_distance(objects[i], ray)
            },
            None => forall|i: int| 0 <= i < objects.len() ==> !hits_ahead(#[trigger] objects[i], ray),
        },
    decreases objects.len(),
{
    if objects.len() > 0 {
        let init = objects.drop_last();
        let n = objects.len() - 1;
        lemma_nearest_hit_is_nearest(init, ray);
        assert(forall|i: int| 0 <= i < n ==> init[i] == objects[i]);
        match nearest_hit(init, ray) {
            Some(b) => {
                let j = choose|i: int| 0 <= i < init.len() && #[trigger] init[i].spec_intersect(ray) == Some(b);
                assert(objects[j].spec_intersect(ray) == Some(b));
            },
            None => {},
        }
        match nearest_hit(objects, ray) {
            Some(h) => {
                assert forall|i: int|
                    0 <= i < objects.len() && hits_ahead(#[trigger] objects[i], ray) implies h.distance
                        <= hit_distance(objects[i], ray) by {
                    if i < n {
                        assert(hits_ahead(init[i], ray));
                    }
                }
            },
            None => {
                assert forall|i: int| 0 <= i < objects.len() implies !hits_ahead(#[trigger] objects[i], ray) by {
                    if i < n {
                        assert(!hits_ahead(init[i], ray));
                    }
                }
            },
        }
    }
}

/// Colour carried back along `ray`, where `samples` are the cube draws of the
/// successive bounces.
pub open spec fn traced<O: Intersectable>(
    ray: Ray,
    objects: Seq<O>,
    samples: Seq<Vector3>,
    depth: nat,
) -> Vector3
    decreases depth,
{
    if depth == 0 {
        Vector3 { x: 0, y: 0, z: 0 }
    } else {
        match nearest_hit(objects, ray) {
            None => spec_sky(ray.direction),
            Some(h) => {
                let next = Ray {
                    origin: h.position,
                    direction: spec_scatter(
                        spec_hemisphere(first_sample(samples), h.normal),
                        h.normal,
                        h.material.smoothness as int,
                    ),
                };
                spec_shade(h.material, traced(next, objects, later_samples(samples), (depth - 1) as nat))
            },
        }
    }
}

/// The nearest hit in front of the ray's origin (distance above zero).
pub fn get_nearest_hit<O: Intersectable>(ray: &Ray, objects: &[O]) -> (r: Option<RayHit>)
    requires
        ray.wf(),
        all_shapes_wf(objects@),
    ensures
        r == nearest_hit(objects@, *ray),
        r matches Some(h) ==> h.wf() && h.distance > 0,
{
    let mut best: Option<RayHit> = None;
    let mut i: usize = 0;
    while i < objects.len()
        invariant
            i <= objects@.len(),
            ray.wf(),
            all_shapes_wf(objects@),
            best == nearest_hit(objects@.subrange(0, i as int), *ray),
            best matches Some(h) ==> h.wf() && h.distance > 0,
        decreases objects@.len() - i,
    {
        assert(objects@.subrange(0, i + 1).drop_last() =~= objects@.subrange(0, i as int));
        assert(objects@[i as int].wf_shape());
        let hit = objects[i].intersect(ray);
        match hit {
            Some(h) => {
                if h.distance > 0 {
                    match best {
                        None => {
                            best = Some(h);
                        },
                        Some(b) => {
                            if h.distance < b.distance {
                                best = Some(h);
                            }
                        },
                    }
                }
            },
            None => {},
        }
        i = i + 1;
    }
    assert(objects@.subrange(0, objects@.len() as int) =~= objects@);
    best
}

/// Radiance along `ray` after at most `depth` bounces: black once the depth
/// is spent, the sky where the ray escapes, else the shaded light of a
/// random bounce.
pub fn trace_ray<O: Intersectable>(
    ray: Ray,
    objects: &[O],
    rng: &mut rand::rngs::ThreadRng,
    depth: usize,
) -> (r: Vector3)
    requires
        ray.wf(),
        all_shapes_wf(objects@),
    ensures
        r.wf(),
        exists|samples: Seq<Vector3>|
            all_in_unit_cube(samples) && r == traced(ray, objects@, samples, depth as nat),
        depth == 0 ==> r == (Vector3 { x: 0, y: 0, z: 0 }),
        depth > 0 && nearest_hit(objects@, ray) is None ==> r == spec_sky(ray.direction),
    decreases depth,
{
    if depth == 0 {
        assert(all_in_unit_cube(Seq::<Vector3>::empty()));
        assert(traced(ray, objects@, Seq::<Vector3>::empty(), 0) == (Vector3 { x: 0, y: 0, z: 0 }));
        return Vector3::zero();
    }
    match get_nearest_hit(&ray, objects) {
        Some(hit) => {
            let oriented = rand_in_hemisphere(hit.normal, rng);
            let ghost v = choose|v: Vector3|
                in_unit_cube(v) && oriented == spec_hemisphere(v, hit.normal);
            let next = Ray {
                origin: hit.position,
                direction: scatter(oriented, hit.normal, hit.material.smoothness),
            };
            let incoming = trace_ray(next, objects, rng, depth - 1);
            let r = shade(&hit.material, incoming);
            proof {
                let rest = choose|s: Seq<Vector3>|
                    all_in_unit_cube(s) && incoming == traced(
                        next,
                        objects@,
                        s,
                        (depth - 1) as nat,
                    );
                let samples = seq![v] + rest;
                lemma_prepend_sample(v, rest);
                assert(r == traced(ray, objects@, samples, depth as nat));
            }
            r
        },
        None => {
            let r = sky_color(ray.direction);
            assert(all_in_unit_cube(Seq::<Vector3>::empty()));
            assert(r == traced(ray, objects@, Seq::<Vector3>::empty(), depth as nat));
            r
        },
    }
}

} // verus!

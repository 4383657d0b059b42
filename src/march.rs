//! The sphere-tracing integrator over a list of distance fields.
use vstd::prelude::*;

use crate::fixed::{magnitude, ONE};
use crate::material::Material;
use crate::ray::Ray;
use crate::sampling::{
    all_in_unit_cube, first_sample, in_unit_cube, lemma_prepend_sample, later_samples,
    rand_in_hemisphere, scatter, shade, sky_color, spec_hemisphere, spec_scatter, spec_shade,
    spec_sky,
};
use crate::sdf::SDF;
use crate::vector3::Vector3;

verus! {

/// Distance under which a marched ray has reached a surface (0.001).
pub const MIN_DISTANCE: i64 = 1_000;

/// Distance over which a marched ray has left the scene (10000.0).
pub const MAX_DISTANCE: i64 = 10_000_000_000;

/// Steps that one marched segment may take before it counts as having left the scene.
pub const MAX_STEPS: usize = 100_000;

pub open spec fn all_fields_wf<S: SDF>(objects: Seq<S>) -> bool {
    forall|i: int| 0 <= i < objects.len() ==> #[trigger] objects[i].wf_field()
}

/// The field value of smallest magnitude at `point`; among equal magnitudes
/// the first field's. None for an empty list.
pub open spec fn nearest_field<S: SDF>(objects: Seq<S>, point: Vector3) -> Option<(i64, Material)>
    decreases objects.len(),
{
    if objects.len() == 0 {
        None
    } else {
        let best = nearest_field(objects.drop_last(), point);
        let f = objects.last().spec_sdf(point);
        match best {
            None => Some(f),
            Some(b) => {
                if magnitude(f.0 as int) < magnitude(b.0 as int) {
                    Some(f)
                } else {
                    best
                }
            },
        }
    }
}

/// The nearest field is the value of one of the fields, none has a value of
/// smaller magnitude, and any field before it has a value of larger
/// magnitude; there is none only for an empty list.
pub proof fn lemma_nearest_field_is_nearest<S: SDF>(objects: Seq<S>, point: Vector3)
    ensures
        match nearest_field(objects, point) {
            Some(f) => {
                &&& exists|i: int|
                    0 <= i < objects.len() && #[trigger] objects[i].spec_sdf(point) == f && forall|
                        j: int,
                    |
                        0 <= j < i ==> magnitude(f.0 as int) < magnitude(
                            #[trigger] objects[j].spec_sdf(point).0 as int,
                        )
                &&& forall|i: int|
                    0 <= i < objects.len() ==> magnitude(f.0 as int) <= magnitude(
                        #[trigger] objects[i].spec_sdf(point).0 as int,
                    )
            },
            None => objects.len() == 0,
        },
    decreases objects.len(),
{
    if objects.len() > 0 {
        let init = objects.drop_last();
        let n = objects.len() - 1;
        lemma_nearest_field_is_nearest(init, point);
        assert(forall|i: int| 0 <= i < n ==> init[i] == objects[i]);
        let last = objects[n].spec_sdf(point);
        match nearest_field(init, point) {
            Some(b) => {
                let j = choose|i: int|
                    0 <= i < init.len() && #[trigger] init[i].spec_sdf(point) == b && forall|k: int|
                        0 <= k < i ==> magnitude(b.0 as int) < magnitude(
                            #[trigger] init[k].spec_sdf(point).0 as int,
                        );
                if magnitude(last.0 as int) < magnitude(b.0 as int) {
                    assert forall|k: int| 0 <= k < n implies magnitude(last.0 as int) < magnitude(
                        #[trigger] objects[k].spec_sdf(point).0 as int,
                    ) by {
                        assert(init[k] == objects[k]);
                        assert(magnitude(b.0 as int) <= magnitude(init[k].spec_sdf(point).0 as int));
                    }
                } else {
                    assert(objects[j].spec_sdf(point) == b);
                    assert forall|k: int| 0 <= k < j implies magnitude(b.0 as int) < magnitude(
                        #[trigger] objects[k].spec_sdf(point).0 as int,
                    ) by {
                        assert(init[k] == objects[k]);
                        assert(magnitude(b.0 as int) < magnitude(init[k].spec_sdf(point).0 as int));
                    }
                    assert forall|i: int| 0 <= i < objects.len() implies magnitude(b.0 as int) <= magnitude(
                        #[trigger] objects[i].spec_sdf(point).0 as int,
                    ) by {
                        if i < n {
                            assert(init[i] == objects[i]);
                        }
                    }
                }
            },
            None => {
                assert(n == 0);
            },
        }
    }
}

/// The ray that leaves a surface reached at `origin` by a ray travelling
/// along `direction`: the normal is taken as `-direction`, the origin is
/// lifted off the surface by twice `MIN_DISTANCE`.
pub open spec fn bounce_ray(origin: Vector3, direction: Vector3, sample: Vector3, smoothness: int) -> Ray {
    let normal = direction.spec_neg();
    Ray {
        origin: origin.spec_add(normal.spec_scale(MIN_DISTANCE as int).spec_scale(2 * ONE)),
        direction: spec_scatter(spec_hemisphere(sample, normal), normal, smoothness),
    }
}

/// Where a ray marched from `ray.origin` reaches a surface, and that
/// surface's material; None where it leaves the scene, or where `steps`
/// steps do not reach a surface.
pub open spec fn segment_end<S: SDF>(ray: Ray, objects: Seq<S>, steps: nat) -> Option<(Vector3, Material)>
    decreases steps,
{
    if steps == 0 {
        None
    } else {
        match nearest_field(objects, ray.origin) {
            None => None,
            Some(f) => {
                if magnitude(f.0 as int) > MAX_DISTANCE {
                    None
                } else {
                    let origin = ray.origin.spec_add(ray.direction.spec_scale(f.0 as int));
                    if f.0 < MIN_DISTANCE {
                        Some((origin, f.1))
                    } else {
                        segment_end(Ray { origin, direction: ray.direction }, objects, (steps - 1) as nat)
                    }
                }
            },
        }
    }
}

/// Colour carried back along a marched ray, where `samples` are the cube
/// draws of the successive bounces.
pub open spec fn marched<S: SDF>(ray: Ray, objects: Seq<S>, samples: Seq<Vector3>, depth: nat) -> Vector3
    decreases depth,
{
    if depth == 0 {
        Vector3 { x: 0, y: 0, z: 0 }
    } else {
        match segment_end(ray, objects, MAX_STEPS as nat) {
            None => spec_sky(ray.direction),
            Some(end) => {
                let next = bounce_ray(
                    end.0,
                    ray.direction,
                    first_sample(samples),
                    end.1.smoothness as int,
                );
                spec_shade(end.1, marched(next, objects, later_samples(samples), (depth - 1) as nat))
            },
        }
    }
}

/// The field nearest to `point` by magnitude of distance.
pub fn get_object<S: SDF>(point: Vector3, objects: &[S]) -> (r: Option<(i64, Material)>)
    requires
        point.wf(),
        all_fields_wf(objects@),
    ensures
        r == nearest_field(objects@, point),
        r matches Some(f) ==> crate::fixed::is_scalar(f.0 as int) && f.1.wf(),
{
    let mut best: Option<(i64, Material)> = None;
    let mut i: usize = 0;
    while i < objects.len()
        invariant
            i <= objects@.len(),
            point.wf(),
            all_fields_wf(objects@),
            best == nearest_field(objects@.subrange(0, i as int), point),
            best matches Some(f) ==> crate::fixed::is_scalar(f.0 as int) && f.1.wf(),
        decreases objects@.len() - i,
    {
        assert(objects@.subrange(0, i + 1).drop_last() =~= objects@.subrange(0, i as int));
        assert(objects@[i as int].wf_field());
        let f = objects[i].get_sdf(point);
        match best {
            None => {
                best = Some(f);
            },
            Some(b) => {
                let fm = if f.0 < 0 {
                    -f.0
                } else {
                    f.0
                };
                let bm = if b.0 < 0 {
                    -b.0
                } else {
                    b.0
                };
                if fm < bm {
                    best = Some(f);
                }
            },
        }
        i = i + 1;
    }
    assert(objects@.subrange(0, objects@.len() as int) =~= objects@);
    best
}

/// Marches `ray` until it reaches a surface or leaves the scene.
pub fn march_segment<S: SDF>(ray: Ray, objects: &[S]) -> (r: Option<(Vector3, Material)>)
    requires
        ray.wf(),
        all_fields_wf(objects@),
    ensures
        r == segment_end(ray, objects@, MAX_STEPS as nat),
        r matches Some(end) ==> end.0.wf() && end.1.wf(),
{
    let mut cur = ray;
    let mut steps: usize = MAX_STEPS;
    loop
        invariant
            cur.wf(),
            all_fields_wf(objects@),
            steps <= MAX_STEPS,
            segment_end(cur, objects@, steps as nat) == segment_end(ray, objects@, MAX_STEPS as nat),
        decreases steps,
    {
        if steps == 0 {
            return None;
        }
        let ghost before = cur;
        match get_object(cur.origin, objects) {
            Some(f) => {
                let distance = f.0;
                let size = if distance < 0 {
                    -distance
                } else {
                    distance
                };
                if size > MAX_DISTANCE {
                    return None;
                }
                cur.origin = cur.origin.add(cur.direction.mul(Vector3::from(distance)));
                if distance < MIN_DISTANCE {
                    assert(segment_end(before, objects@, steps as nat) == Some((cur.origin, f.1)));
                    return Some((cur.origin, f.1));
                }
                assert(segment_end(before, objects@, steps as nat) == segment_end(
                    cur,
                    objects@,
                    (steps - 1) as nat,
                ));
                steps = steps - 1;
            },
            None => {
                return None;
            },
        }
    }
}

/// Radiance along `ray` by sphere tracing: step by the nearest field's
/// distance until a surface is reached (then bounce as the path tracer
/// does, taking `-direction` as the normal), the ray leaves the scene, or
/// the step budget is spent.
pub fn march_ray<S: SDF>(
    ray: Ray,
    objects: &[S],
    rng: &mut rand::rngs::ThreadRng,
    depth: usize,
) -> (r: Vector3)
    requires
        ray.wf(),
        all_fields_wf(objects@),
    ensures
        r.wf(),
        exists|samples: Seq<Vector3>|
            all_in_unit_cube(samples) && r == marched(ray, objects@, samples, depth as nat),
        depth == 0 ==> r == (Vector3 { x: 0, y: 0, z: 0 }),
        depth > 0 && objects@.len() == 0 ==> r == spec_sky(ray.direction),
    decreases depth,
{
    assert(all_in_unit_cube(Seq::<Vector3>::empty()));
    if depth == 0 {
        assert(marched(ray, objects@, Seq::<Vector3>::empty(), 0) == (Vector3 { x: 0, y: 0, z: 0 }));
        return Vector3::zero();
    }
    match march_segment(ray, objects) {
        Some(end) => {
            let material = end.1;
            let normal = ray.direction.neg();
            let oriented = rand_in_hemisphere(normal, rng);
            let ghost v = choose|v: Vector3| in_unit_cube(v) && oriented == spec_hemisphere(v, normal);
            let next = Ray {
                origin: end.0.add(normal.mul(Vector3::from(MIN_DISTANCE)).mul(Vector3::from(2 * ONE))),
                direction: scatter(oriented, normal, material.smoothness),
            };
            let incoming = march_ray(next, objects, rng, depth - 1);
            let r = shade(&material, incoming);
            proof {
                let rest = choose|s: Seq<Vector3>|
                    all_in_unit_cube(s) && incoming == marched(next, objects@, s, (depth - 1) as nat);
                let samples = seq![v] + rest;
                lemma_prepend_sample(v, rest);
                assert(next == bounce_ray(end.0, ray.direction, v, material.smoothness as int));
                assert(r == marched(ray, objects@, samples, depth as nat));
            }
            r
        },
        None => {
            let r = sky_color(ray.direction);
            assert(r == marched(ray, objects@, Seq::<Vector3>::empty(), depth as nat));
            r
        },
    }
}

} // verus!

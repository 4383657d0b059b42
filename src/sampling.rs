//! Random bounce directions, the sky and surface shading shared by both integrators.
use rand::Rng;
use vstd::prelude::*;

use crate::fixed::{fx_add, fx_mul, is_scalar, spec_add, spec_mul, ONE};
use crate::material::Material;
use crate::vector3::Vector3;

verus! {

/// The per-thread random generator of rand, carried through opaquely.
#[verifier::external_type_specification]
#[verifier::external_body]
pub struct ExThreadRng(rand::rngs::ThreadRng);

/// Relies on rand::Rng::gen_range on a half-open `i64` range: a value drawn
/// from `[low, high)` (it panics only on an empty range).
#[verifier::external_body]
fn random_in(rng: &mut rand::rngs::ThreadRng, low: i64, high: i64) -> (r: i64)
    requires
        low < high,
    ensures
        low <= r < high,
{
    rng.gen_range(low..high)
}

/// Each component is in `[-ONE, ONE)`.
pub open spec fn in_unit_cube(v: Vector3) -> bool {
    &&& -ONE <= v.x < ONE
    &&& -ONE <= v.y < ONE
    &&& -ONE <= v.z < ONE
}

/// Every draw is in the unit cube.
pub open spec fn all_in_unit_cube(samples: Seq<Vector3>) -> bool {
    forall|i: int| 0 <= i < samples.len() ==> #[trigger] in_unit_cube(samples[i])
}

/// The draw for the next bounce (zero once the draws are used up).
pub open spec fn first_sample(samples: Seq<Vector3>) -> Vector3 {
    if samples.len() > 0 {
        samples[0]
    } else {
        Vector3 { x: 0, y: 0, z: 0 }
    }
}

/// The draws left for the bounces after the next one.
pub open spec fn later_samples(samples: Seq<Vector3>) -> Seq<Vector3> {
    if samples.len() > 0 {
        samples.drop_first()
    } else {
        samples
    }
}

/// A draw put in front of a list of draws comes first, and is taken off again.
pub proof fn lemma_prepend_sample(v: Vector3, rest: Seq<Vector3>)
    requires
        in_unit_cube(v),
        all_in_unit_cube(rest),
    ensures
        all_in_unit_cube(seq![v] + rest),
        first_sample(seq![v] + rest) == v,
        later_samples(seq![v] + rest) == rest,
{
    let samples = seq![v] + rest;
    assert(samples.drop_first() =~= rest);
    assert forall|i: int| 0 <= i < samples.len() implies #[trigger] in_unit_cube(samples[i]) by {
        if i > 0 {
            assert(samples[i] == rest[i - 1]);
        }
    }
}

/// `v` where it points away from the surface, else `v` reversed.
pub open spec fn spec_hemisphere(v: Vector3, normal: Vector3) -> Vector3 {
    if v.spec_dot(normal) > 0 {
        v
    } else {
        v.spec_neg()
    }
}

/// Bounce direction: `oriented` pulled towards the normal by `smoothness`, normalized.
pub open spec fn spec_scatter(oriented: Vector3, normal: Vector3, smoothness: int) -> Vector3 {
    oriented.spec_lerp(normal, smoothness).spec_normalized()
}

/// The colour that the sky gives at the top of the gradient.
pub open spec fn sky_zenith() -> Vector3 {
    Vector3 { x: 400_000, y: 600_000, z: 800_000 }
}

/// Vertical gradient from white (looking down) to `sky_zenith` (looking up).
pub open spec fn spec_sky(direction: Vector3) -> Vector3 {
    Vector3 { x: ONE, y: ONE, z: ONE }.spec_lerp(
        sky_zenith(),
        spec_add(spec_mul(direction.y as int, ONE / 2), ONE / 2),
    )
}

/// Light leaving a surface: incoming light tinted by the albedo, plus emission.
pub open spec fn spec_shade(material: Material, incoming: Vector3) -> Vector3 {
    incoming.spec_mul(material.diffuse_color).spec_add(material.emissive_color)
}

/// Looking straight up gives the zenith colour; straight down gives white.
pub proof fn lemma_sky_extremes(up: Vector3, down: Vector3)
    requires
        up.y == ONE,
        down.y == -ONE,
    ensures
        spec_sky(up) == sky_zenith(),
        spec_sky(down) == (Vector3 { x: ONE, y: ONE, z: ONE }),
{
    assert(500_000_000_000int / 1_000_000int == 500_000) by (nonlinear_arith);
    assert(1_000_000_000_000int / 1_000_000int == 1_000_000) by (nonlinear_arith);
    assert(crate::fixed::quot(-500_000_000_000int, ONE as int) == -(ONE / 2));
    assert(ONE / 2 == 500_000);
    assert((down.y as int) * 500_000 == -500_000_000_000int);
    assert(spec_mul(down.y as int, ONE / 2) == -(ONE / 2));
    assert(spec_add(spec_mul(down.y as int, ONE / 2), ONE / 2) == 0);
    assert(crate::fixed::quot(ONE * ONE, ONE as int) == ONE);
    assert(crate::fixed::quot(0, ONE as int) == 0);
}

proof fn lemma_quot_neg(a: int, b: int)
    requires
        b > 0,
    ensures
        crate::fixed::quot(-a, b) == -crate::fixed::quot(a, b),
{
}

/// Reversing a vector reverses its dot product with any other.
pub proof fn lemma_dot_neg(v: Vector3, n: Vector3)
    requires
        v.wf(),
    ensures
        v.spec_neg().spec_dot(n) == -v.spec_dot(n),
{
    let s = v.x * n.x + v.y * n.y + v.z * n.z;
    let w = v.spec_neg();
    assert(w.x == -v.x && w.y == -v.y && w.z == -v.z);
    assert(w.x * n.x + w.y * n.y + w.z * n.z == -s) by (nonlinear_arith)
        requires
            w.x == -v.x,
            w.y == -v.y,
            w.z == -v.z,
            s == v.x * n.x + v.y * n.y + v.z * n.z,
    ;
    lemma_quot_neg(s, ONE as int);
}

/// `v` or its reverse, whichever points into the hemisphere around `normal`.
pub fn orient_to_hemisphere(v: Vector3, normal: Vector3) -> (r: Vector3)
    requires
        v.wf(),
        normal.wf(),
    ensures
        r == spec_hemisphere(v, normal),
        r.spec_dot(normal) >= 0,
        r.wf(),
{
    if v.dot(normal) > 0 {
        v
    } else {
        proof {
            lemma_dot_neg(v, normal);
        }
        v.neg()
    }
}

/// A random direction in the hemisphere around `normal`: a uniform draw from
/// the cube `[-ONE, ONE)^3`, reversed where it points below the surface.
pub fn rand_in_hemisphere(normal: Vector3, rng: &mut rand::rngs::ThreadRng) -> (r: Vector3)
    requires
        normal.wf(),
    ensures
        exists|v: Vector3| in_unit_cube(v) && r == spec_hemisphere(v, normal),
        r.spec_dot(normal) >= 0,
        r.wf(),
{
    let x = random_in(rng, -ONE, ONE);
    let y = random_in(rng, -ONE, ONE);
    let z = random_in(rng, -ONE, ONE);
    let v = Vector3 { x, y, z };
    let r = orient_to_hemisphere(v, normal);
    assert(in_unit_cube(v));
    r
}

pub fn scatter(oriented: Vector3, normal: Vector3, smoothness: i64) -> (r: Vector3)
    requires
        oriented.wf(),
        normal.wf(),
        is_scalar(smoothness as int),
    ensures
        r == spec_scatter(oriented, normal, smoothness as int),
        r.wf(),
{
    oriented.lerp(normal, smoothness).normalized()
}

/// The background seen by a ray that leaves the scene with `direction`.
pub fn sky_color(direction: Vector3) -> (r: Vector3)
    requires
        direction.wf(),
    ensures
        r == spec_sky(direction),
        r.wf(),
{
    let zenith = Vector3 { x: 400_000, y: 600_000, z: 800_000 };
    Vector3::one().lerp(zenith, fx_add(fx_mul(direction.y, ONE / 2), ONE / 2))
}

pub fn shade(material: &Material, incoming: Vector3) -> (r: Vector3)
    requires
        material.wf(),
        incoming.wf(),
    ensures
        r == spec_shade(*material, incoming),
        r.wf(),
{
    incoming.mul(material.diffuse_color).add(material.emissive_color)
}

} // verus!

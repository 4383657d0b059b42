//! Signed distance fields and the tree of shapes that a marched scene is made of.
use vstd::prelude::*;

use crate::and::And;
use crate::cutout::Cutout;
use crate::fixed::{fx_max, is_scalar, spec_max};
use crate::material::Material;
use crate::sphere::Sphere;
use crate::vector3::Vector3;

verus! {

/// A field that gives, at each point, the signed distance to the nearest
/// surface (negative inside) and the material that applies there.
pub trait SDF {
    /// The field's parameters are within the scalar bounds.
    spec fn wf_field(&self) -> bool;

    spec fn spec_sdf(&self, point: Vector3) -> (i64, Material);

    fn get_sdf(&self, point: Vector3) -> (r: (i64, Material))
        requires
            self.wf_field(),
            point.wf(),
        ensures
            r == self.spec_sdf(point),
            is_scalar(r.0 as int),
            r.1.wf(),
    ;
}

/// A node of a distance-field tree: a primitive or a combinator that owns
/// its two children.
#[derive(Debug)]
pub enum SdfShape {
    Sphere(Sphere),
    And(And),
    Cutout(Cutout),
}

/// Intersection of two fields: the larger distance, always with `a`'s material.
pub open spec fn and_of(a: (i64, Material), b: (i64, Material)) -> (i64, Material) {
    (spec_max(a.0 as int, b.0 as int) as i64, a.1)
}

/// `object` with `cutout`'s volume taken away, with `object`'s material.
pub open spec fn cutout_of(object: (i64, Material), cutout: (i64, Material)) -> (i64, Material) {
    (spec_max(object.0 as int, -cutout.0) as i64, object.1)
}

pub open spec fn shape_wf(s: SdfShape) -> bool
    decreases s,
{
    match s {
        SdfShape::Sphere(sp) => sp.wf(),
        SdfShape::And(n) => shape_wf(*n.a) && shape_wf(*n.b),
        SdfShape::Cutout(n) => shape_wf(*n.object) && shape_wf(*n.cutout),
    }
}

pub open spec fn shape_sdf(s: SdfShape, point: Vector3) -> (i64, Material)
    decreases s,
{
    match s {
        SdfShape::Sphere(sp) => sp.spec_sdf(point),
        SdfShape::And(n) => and_of(shape_sdf(*n.a, point), shape_sdf(*n.b, point)),
        SdfShape::Cutout(n) => cutout_of(shape_sdf(*n.object, point), shape_sdf(*n.cutout, point)),
    }
}

/// An intersection takes the larger of its children's distances and always
/// the material of its first child.
pub proof fn lemma_and_distance(n: And, point: Vector3)
    ensures
        n.spec_sdf(point).0 == spec_max(
            shape_sdf(*n.a, point).0 as int,
            shape_sdf(*n.b, point).0 as int,
        ),
        n.spec_sdf(point).1 == shape_sdf(*n.a, point).1,
{
}

/// At a point inside both the object and the cutout, where the depth inside
/// the cutout exceeds the object's distance, a cutout reports that depth as
/// a positive distance: the point lies outside the carved shape.
pub proof fn lemma_cutout_inside_both(n: Cutout, point: Vector3)
    requires
        shape_wf(*n.cutout),
        point.wf(),
        shape_sdf(*n.object, point).0 < 0,
        shape_sdf(*n.cutout, point).0 < 0,
        -shape_sdf(*n.cutout, point).0 > shape_sdf(*n.object, point).0,
    ensures
        n.spec_sdf(point).0 == -shape_sdf(*n.cutout, point).0,
        n.spec_sdf(point).0 > 0,
        n.spec_sdf(point).1 == shape_sdf(*n.object, point).1,
{
    lemma_shape_sdf_scalar(*n.cutout, point);
}

/// A well-formed field gives a distance within the scalar bounds.
pub proof fn lemma_shape_sdf_scalar(s: SdfShape, point: Vector3)
    requires
        shape_wf(s),
        point.wf(),
    ensures
        is_scalar(shape_sdf(s, point).0 as int),
    decreases s,
{
    match s {
        SdfShape::Sphere(sp) => {},
        SdfShape::And(n) => {
            lemma_shape_sdf_scalar(*n.a, point);
            lemma_shape_sdf_scalar(*n.b, point);
        },
        SdfShape::Cutout(n) => {
            lemma_shape_sdf_scalar(*n.object, point);
            lemma_shape_sdf_scalar(*n.cutout, point);
        },
    }
}

pub fn combine_and(a: (i64, Material), b: (i64, Material)) -> (r: (i64, Material))
    ensures
        r == and_of(a, b),
{
    (fx_max(a.0, b.0), a.1)
}

pub fn combine_cutout(object: (i64, Material), cutout: (i64, Material)) -> (r: (i64, Material))
    requires
        is_scalar(cutout.0 as int),
    ensures
        r == cutout_of(object, cutout),
{
    (fx_max(object.0, -cutout.0), object.1)
}

fn shape_get_sdf(s: &SdfShape, point: Vector3) -> (r: (i64, Material))
    requires
        shape_wf(*s),
        point.wf(),
    ensures
        r == shape_sdf(*s, point),
        is_scalar(r.0 as int),
        r.1.wf(),
    decreases s,
{
    match s {
        SdfShape::Sphere(sp) => sp.get_sdf(point),
        SdfShape::And(n) => {
            let a = shape_get_sdf(&n.a, point);
            let b = shape_get_sdf(&n.b, point);
            combine_and(a, b)
        },
        SdfShape::Cutout(n) => {
            let object = shape_get_sdf(&n.object, point);
            let cutout = shape_get_sdf(&n.cutout, point);
            combine_cutout(object, cutout)
        },
    }
}

impl SDF for SdfShape {
    open spec fn wf_field(&self) -> bool {
        shape_wf(*self)
    }

    open spec fn spec_sdf(&self, point: Vector3) -> (i64, Material) {
        shape_sdf(*self, point)
    }

    fn get_sdf(&self, point: Vector3) -> (r: (i64, Material)) {
        shape_get_sdf(self, point)
    }
}

impl SDF for And {
    open spec fn wf_field(&self) -> bool {
        shape_wf(*self.a) && shape_wf(*self.b)
    }

    open spec fn spec_sdf(&self, point: Vector3) -> (i64, Material) {
        and_of(shape_sdf(*self.a, point), shape_sdf(*self.b, point))
    }

    fn get_sdf(&self, point: Vector3) -> (r: (i64, Material)) {
        let a = shape_get_sdf(&self.a, point);
        let b = shape_get_sdf(&self.b, point);
        combine_and(a, b)
    }
}

impl SDF for Cutout {
    open spec fn wf_field(&self) -> bool {
        shape_wf(*self.object) && shape_wf(*self.cutout)
    }

    open spec fn spec_sdf(&self, point: Vector3) -> (i64, Material) {
        cutout_of(shape_sdf(*self.object, point), shape_sdf(*self.cutout, point))
    }

    fn get_sdf(&self, point: Vector3) -> (r: (i64, Material)) {
        let object = shape_get_sdf(&self.object, point);
        let cutout = shape_get_sdf(&self.cutout, point);
        combine_cutout(object, cutout)
    }
}

} // verus!

//! What a ray meets, and the shapes that rays can meet.
use vstd::prelude::*;

use crate::fixed::is_scalar;
use crate::material::Material;
use crate::ray::Ray;
use crate::vector3::Vector3;

verus! {

/// A shape that a ray can be intersected with.
pub trait Intersectable {
    /// The shape's fields are within the scalar bounds.
    spec fn wf_shape(&self) -> bool;

    /// Where `ray` meets the shape, if anywhere.
    spec fn spec_intersect(&self, ray: Ray) -> Option<RayHit>;

    fn intersect(&self, ray: &Ray) -> (r: Option<RayHit>)
        requires
            self.wf_shape(),
            ray.wf(),
        ensures
            r == self.spec_intersect(*ray),
            r matches Some(h) ==> h.wf(),
    ;
}

#[derive(Clone, Copy, PartialEq, Eq, Structural, Debug)]
pub struct RayHit {
    pub position: Vector3,
    pub normal: Vector3,
    pub distance: i64,
    pub material: Material,
}

impl RayHit {
    pub open spec fn wf(self) -> bool {
        self.position.wf() && self.normal.wf() && is_scalar(self.distance as int)
            && self.material.wf()
    }
}

impl Default for RayHit {
    fn default() -> (r: RayHit)
        ensures
            r == (RayHit {
                position: Vector3 { x: 0, y: 0, z: 0 },
                normal: Vector3 { x: 0, y: 0, z: 0 },
                distance: 0,
                material: Material {
                    diffuse_color: Vector3 { x: 0, y: 0, z: 0 },
                    emissive_color: Vector3 { x: 0, y: 0, z: 0 },
                    smoothness: 0,
                },
            }),
    {
        RayHit {
            position: Vector3::zero(),
            normal: Vector3::zero(),
            distance: 0,
            material: Material::default(),
        }
    }
}

} // verus!

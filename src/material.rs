//! Surface material: albedo, emitted light and smoothness.
use vstd::prelude::*;

use crate::fixed::is_scalar;
use crate::vector3::Vector3;

verus! {

#[derive(Clone, Copy, PartialEq, Eq, Structural, Debug)]
pub struct Material {
    pub diffuse_color: Vector3,
    pub emissive_color: Vector3,
    /// 0 scatters diffusely, `ONE` bounces along the surface normal.
    pub smoothness: i64,
}

impl Material {
    pub open spec fn wf(self) -> bool {
        self.diffuse_color.wf() && self.emissive_color.wf() && is_scalar(self.smoothness as int)
    }
}

impl Default for Material {
    fn default() -> (r: Material)
        ensures
            r == (Material {
                diffuse_color: Vector3 { x: 0, y: 0, z: 0 },
                emissive_color: Vector3 { x: 0, y: 0, z: 0 },
                smoothness: 0,
            }),
    {
        Material { diffuse_color: Vector3::zero(), emissive_color: Vector3::zero(), smoothness: 0 }
    }
}

} // verus!

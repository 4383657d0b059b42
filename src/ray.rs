//! A ray: an origin and a direction, not necessarily of unit length.
use vstd::prelude::*;

use crate::vector3::Vector3;

verus! {

#[derive(Clone, Copy, PartialEq, Eq, Structural, Debug)]
pub struct Ray {
    pub origin: Vector3,
    pub direction: Vector3,
}

impl Ray {
    pub open spec fn wf(self) -> bool {
        self.origin.wf() && self.direction.wf()
    }
}

impl Default for Ray {
    fn default() -> (r: Ray)
        ensures
            r == (Ray { origin: Vector3 { x: 0, y: 0, z: 0 }, direction: Vector3 { x: 0, y: 0, z: 0 } }),
    {
        Ray { origin: Vector3::zero(), direction: Vector3::zero() }
    }
}

} // verus!

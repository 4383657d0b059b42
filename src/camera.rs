//! Pinhole camera: maps screen coordinates to world-space rays.
use vstd::prelude::*;

use crate::fixed::is_scalar;
use crate::ray::Ray;
use crate::vector3::Vector3;

verus! {

/// The basis is used as given: it is not made orthonormal here.
#[derive(Clone, Copy, PartialEq, Eq, Structural, Debug)]
pub struct Camera {
    pub position: Vector3,
    pub forward: Vector3,
    pub right: Vector3,
    pub up: Vector3,
    /// Width over height of the image.
    pub aspect: i64,
}

impl Camera {
    pub open spec fn wf(self) -> bool {
        self.position.wf() && self.forward.wf() && self.right.wf() && self.up.wf() && is_scalar(
            self.aspect as int,
        )
    }

    /// `right * x * aspect + up * y + forward`, from `position`.
    pub open spec fn spec_get_ray(self, x: int, y: int) -> Ray {
        Ray {
            origin: self.position,
            direction: self.right.spec_scale(x).spec_scale(self.aspect as int).spec_add(
                self.up.spec_scale(y),
            ).spec_add(self.forward),
        }
    }

    /// The ray through screen point `(x, y)`, both roughly in `[-ONE, ONE]`
    /// with `y` pointing up. Its direction is not normalized.
    pub fn get_ray(&self, x: i64, y: i64) -> (r: Ray)
        requires
            self.wf(),
            is_scalar(x as int),
            is_scalar(y as int),
        ensures
            r == self.spec_get_ray(x as int, y as int),
            r.wf(),
    {
        Ray {
            origin: self.position,
            direction: self.right.mul(Vector3::from(x)).mul(Vector3::from(self.aspect)).add(
                self.up.mul(Vector3::from(y)),
            ).add(self.forward),
        }
    }
}

} // verus!

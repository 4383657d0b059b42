//! A sphere: analytic intersection and signed distance.
use vstd::prelude::*;

use crate::fixed::{
    fx_add, fx_div, fx_mul, fx_sqrt, fx_sub, is_scalar, spec_add, spec_div, spec_mul, spec_sqrt,
    spec_sub,
};
use crate::hit::{Intersectable, RayHit};
use crate::material::Material;
use crate::ray::Ray;
use crate::sdf::SDF;
use crate::vector3::Vector3;

verus! {

#[derive(Clone, Copy, PartialEq, Eq, Structural, Debug)]
pub struct Sphere {
    pub position: Vector3,
    pub radius: i64,
    pub material: Material,
}

impl Sphere {
    pub open spec fn wf(self) -> bool {
        self.position.wf() && is_scalar(self.radius as int) && self.material.wf()
    }

    /// The hit at distance `t` along `ray`; the normal points away from the
    /// centre, or towards it where `inside` holds.
    pub open spec fn spec_hit_at(self, ray: Ray, t: int, inside: bool) -> RayHit {
        let position = ray.origin.spec_add(ray.direction.spec_scale(t));
        let offset = position.spec_sub(self.position);
        let outward = if inside { offset.spec_neg() } else { offset };
        RayHit {
            position,
            normal: outward.spec_div(Vector3::spec_splat(self.radius as int)),
            distance: t as i64,
            material: self.material,
        }
    }

    /// Solves `|origin + t * direction - centre|^2 == radius^2` for the
    /// nearest `t` that is not behind the origin, falling back to the far
    /// root (and an inward normal) when the near one is.
    pub open spec fn spec_sphere_hit(self, ray: Ray) -> Option<RayHit> {
        let oc = ray.origin.spec_sub(self.position);
        let a = ray.direction.spec_length_sqr();
        let half_b = oc.spec_dot(ray.direction);
        let c = spec_sub(oc.spec_length_sqr(), spec_mul(self.radius as int, self.radius as int));
        let discriminant = spec_sub(spec_mul(half_b, half_b), spec_mul(a, c));
        if discriminant < 0 {
            None
        } else {
            let root = spec_sqrt(discriminant);
            let near = spec_div(spec_sub(-half_b, root), a);
            if near >= 0 {
                Some(self.spec_hit_at(ray, near, false))
            } else {
                let far = spec_div(spec_add(-half_b, root), a);
                Some(self.spec_hit_at(ray, far, true))
            }
        }
    }

    /// Distance from `point` to the surface: negative inside.
    pub open spec fn spec_distance(self, point: Vector3) -> int {
        spec_sub(point.spec_sub(self.position).spec_length(), self.radius as int)
    }

    fn hit_at(&self, ray: &Ray, t: i64, inside: bool) -> (r: RayHit)
        requires
            self.wf(),
            ray.wf(),
            is_scalar(t as int),
        ensures
            r == self.spec_hit_at(*ray, t as int, inside),
            r.wf(),
    {
        let position = ray.origin.add(ray.direction.mul(Vector3::from(t)));
        let offset = position.sub(self.position);
        let outward = if inside {
            offset.neg()
        } else {
            offset
        };
        RayHit {
            position,
            normal: outward.div(Vector3::from(self.radius)),
            distance: t,
            material: self.material,
        }
    }
}

impl Intersectable for Sphere {
    open spec fn wf_shape(&self) -> bool {
        self.wf()
    }

    open spec fn spec_intersect(&self, ray: Ray) -> Option<RayHit> {
        self.spec_sphere_hit(ray)
    }

    fn intersect(&self, ray: &Ray) -> (r: Option<RayHit>) {
        let oc = ray.origin.sub(self.position);
        let a = ray.direction.length_sqr();
        let half_b = oc.dot(ray.direction);
        let c = fx_sub(oc.length_sqr(), fx_mul(self.radius, self.radius));
        let discriminant = fx_sub(fx_mul(half_b, half_b), fx_mul(a, c));
        if discriminant >= 0 {
            let root = fx_sqrt(discriminant);
            let distance = fx_div(fx_sub(-half_b, root), a);
            if distance >= 0 {
                Some(self.hit_at(ray, distance, false))
            } else {
                let distance = fx_div(fx_add(-half_b, root), a);
                Some(self.hit_at(ray, distance, true))
            }
        } else {
            None
        }
    }
}

impl SDF for Sphere {
    open spec fn wf_field(&self) -> bool {
        self.wf()
    }

    open spec fn spec_sdf(&self, point: Vector3) -> (i64, Material) {
        (self.spec_distance(point) as i64, self.material)
    }

    fn get_sdf(&self, point: Vector3) -> (r: (i64, Material)) {
        (fx_sub(point.sub(self.position).length(), self.radius), self.material)
    }
}

} // verus!

//! A parametric ray: origin plus scaled direction.

use vstd::prelude::*;

use crate::vec3::{v_add, v_scale, Point3, Vec3};

verus! {

#[derive(Clone, Copy, PartialEq, Eq, Structural, Debug)]
pub struct Ray {
    pub origin: Point3,
    pub direction: Vec3,
}

/// The point the ray reaches at parameter `t`.
pub open spec fn spec_ray_at(r: Ray, t: int) -> Point3 {
    v_add(r.origin, v_scale(r.direction, t))
}

impl Ray {
    pub fn new(origin: Point3, direction: Vec3) -> (r: Ray)
        ensures
            r == (Ray { origin, direction }),
    {
        Ray { origin, direction }
    }

    pub fn origin(&self) -> (r: Point3)
        ensures
            r == self.origin,
    {
        self.origin
    }

    pub fn direction(&self) -> (r: Vec3)
        ensures
            r == self.direction,
    {
        self.direction
    }

    pub fn at(&self, t: i64) -> (r: Point3)
        ensures
            r == spec_ray_at(*self, t as int),
    {
        self.origin.add(&self.direction.scale(t))
    }
}

} // verus!

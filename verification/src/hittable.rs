//! Geometry that answers ray-intersection queries, and the record a query
//! leaves behind.

use vstd::prelude::*;

use crate::material::{spec_material_wf, Material};
use crate::ray::Ray;
use crate::util::Interval;
use crate::vec3::{dot, v_dot, v_neg, v_norm_sq, Point3, Vec3};

pub mod sphere;
pub mod triangle;

pub use sphere::{spec_sphere_hit, Sphere};
pub use triangle::Triangle;

verus! {

/// The transient result of one intersection query: the hit point, the unit
/// normal oriented against the incoming ray, the ray parameter, whether the
/// outside was struck, and the surface's material.
#[derive(Clone, Copy, Debug)]
pub struct HitRecord {
    pub p: Point3,
    pub normal: Vec3,
    pub t: i64,
    pub front_face: bool,
    pub material: Option<Material>,
}

/// The record with its normal oriented against the ray: outward when the ray
/// arrives from outside, flipped otherwise.
pub open spec fn spec_set_face_normal(h: HitRecord, r: Ray, outward_normal: Vec3) -> HitRecord {
    let ff = v_dot(r.direction, outward_normal) < 0;
    HitRecord {
        front_face: ff,
        normal: if ff {
            outward_normal
        } else {
            v_neg(outward_normal)
        },
        ..h
    }
}

impl HitRecord {
    /// Orients the stored normal against the ray. The parameter
    /// `outward_normal` is assumed to have unit length.
    pub fn set_face_normal(&mut self, r: &Ray, outward_normal: &Vec3)
        ensures
            *final(self) == spec_set_face_normal(*old(self), *r, *outward_normal),
    {
        self.front_face = dot(&r.direction(), outward_normal) < 0;
        self.normal = if self.front_face {
            *outward_normal
        } else {
            outward_normal.neg()
        };
    }
}

/// A geometric primitive that answers intersection queries, as a closed
/// tagged variant dispatched by pattern match.
#[derive(Clone, Copy, Debug)]
pub enum Hittable {
    Sphere(Sphere),
}

pub open spec fn spec_hittable_wf(obj: Hittable) -> bool {
    match obj {
        Hittable::Sphere(s) => match s.material {
            Some(m) => spec_material_wf(m),
            None => true,
        },
    }
}

pub open spec fn spec_hittable_hit(obj: Hittable, r: Ray, ray_t: Interval) -> Option<HitRecord> {
    match obj {
        Hittable::Sphere(s) => spec_sphere_hit(s, r, ray_t),
    }
}

/// What every accepted hit guarantees: the parameter lies strictly inside the
/// queried range, a front face means the normal opposes the ray, and the ray
/// that produced it has a direction.
pub open spec fn spec_hit_props(res: Option<HitRecord>, r: Ray, ray_t: Interval) -> bool {
    res is Some ==> {
        let h = res->Some_0;
        &&& ray_t.min < h.t
        &&& h.t < ray_t.max
        &&& h.front_face ==> v_dot(h.normal, r.direction) < 0
        &&& v_norm_sq(r.direction) > 0
    }
}

impl Hittable {
    pub fn hit(&self, r: &Ray, ray_t: &Interval) -> (res: Option<HitRecord>)
        ensures
            res == spec_hittable_hit(*self, *r, *ray_t),
            spec_hit_props(res, *r, *ray_t),
            res is Some && spec_hittable_wf(*self) && res->Some_0.material is Some
                ==> spec_material_wf(res->Some_0.material->Some_0),
    {
        match self {
            Hittable::Sphere(s) => s.hit(r, ray_t),
        }
    }
}

/// An ordered aggregate of primitives, answering with the nearest hit.
#[derive(Debug)]
pub struct HittableList {
    pub objects: Vec<Hittable>,
}

pub open spec fn spec_list_wf(l: HittableList) -> bool {
    forall|i: int| 0 <= i < l.objects@.len() ==> spec_hittable_wf(#[trigger] l.objects@[i])
}

/// The narrowing nearest-hit scan: each accepted hit shrinks the upper bound,
/// so no later, farther hit can replace it.
pub open spec fn spec_list_hit_from(
    objects: Seq<Hittable>,
    r: Ray,
    t_min: i64,
    closest: i64,
    best: Option<HitRecord>,
) -> Option<HitRecord>
    decreases objects.len(),
{
    if objects.len() == 0 {
        best
    } else {
        match spec_hittable_hit(objects[0], r, Interval { min: t_min, max: closest }) {
            Some(h) => spec_list_hit_from(objects.skip(1), r, t_min, h.t, Some(h)),
            None => spec_list_hit_from(objects.skip(1), r, t_min, closest, best),
        }
    }
}

pub open spec fn spec_list_hit(l: HittableList, r: Ray, ray_t: Interval) -> Option<HitRecord> {
    spec_list_hit_from(l.objects@, r, ray_t.min, ray_t.max, None)
}

impl HittableList {
    pub fn new() -> (r: Self)
        ensures
            r.objects@.len() == 0,
    {
        HittableList { objects: Vec::new() }
    }

    pub fn add(&mut self, object: Hittable)
        ensures
            final(self).objects@ == old(self).objects@.push(object),
    {
        self.objects.push(object);
    }

    pub fn clear(&mut self)
        ensures
            final(self).objects@.len() == 0,
    {
        self.objects.clear();
    }

    pub fn hit(&self, r: &Ray, ray_t: &Interval) -> (res: Option<HitRecord>)
        ensures
            res == spec_list_hit(*self, *r, *ray_t),
            spec_hit_props(res, *r, *ray_t),
            spec_list_wf(*self) && res is Some && res->Some_0.material is Some
                ==> spec_material_wf(res->Some_0.material->Some_0),
    {
        let mut result: Option<HitRecord> = None;
        let mut closest_so_far: i64 = ray_t.max;
        let n = self.objects.len();
        let mut i: usize = 0;
        proof {
            assert(self.objects@.skip(0) =~= self.objects@);
        }
        while i < n
            invariant
                n == self.objects@.len(),
                0 <= i <= n,
                spec_list_hit_from(
                    self.objects@.skip(i as int),
                    *r,
                    ray_t.min,
                    closest_so_far,
                    result,
                ) == spec_list_hit(*self, *r, *ray_t),
                spec_hit_props(result, *r, *ray_t),
                closest_so_far <= ray_t.max,
                result is Some ==> result->Some_0.t == closest_so_far,
                result is None ==> closest_so_far == ray_t.max,
                spec_list_wf(*self) && result is Some && result->Some_0.material is Some
                    ==> spec_material_wf(result->Some_0.material->Some_0),
            decreases n - i,
        {
            proof {
                assert(self.objects@.skip(i as int)[0] == self.objects@[i as int]);
                assert(self.objects@.skip(i as int).skip(1) == self.objects@.skip(i as int + 1));
            }
            let obj = &self.objects[i];
            if let Some(res) = obj.hit(r, &Interval::new(ray_t.min, closest_so_far)) {
                closest_so_far = res.t;
                result = Some(res);
            }
            i = i + 1;
        }
        result
    }
}

} // verus!

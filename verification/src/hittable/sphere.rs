//! Analytic ray-sphere intersection.

use vstd::prelude::*;

use crate::fixed::{fadd, fdiv, fmul, fsqrt, fsub, fp_add, fp_div, fp_mul, fp_sqrt, fp_sub};
use crate::hittable::{spec_set_face_normal, HitRecord};
use crate::material::Material;
use crate::ray::{spec_ray_at, Ray};
use crate::util::{spec_surrounds, Interval};
use crate::vec3::{dot, v_div_s, v_dot, v_norm_sq, v_sub, Point3, Vec3};

verus! {

#[derive(Clone, Copy, Debug)]
pub struct Sphere {
    pub centre: Point3,
    pub radius: i64,
    pub material: Option<Material>,
}

/// The quadratic ray-sphere intersection. A ray with no direction cannot hit,
/// and a sphere of zero radius is never hit: neither degenerate quotient is
/// formed.
pub open spec fn spec_sphere_hit(s: Sphere, r: Ray, ray_t: Interval) -> Option<HitRecord> {
    let oc = v_sub(s.centre, r.origin);
    let a = v_norm_sq(r.direction);
    let h = v_dot(r.direction, oc);
    let c = fsub(v_norm_sq(oc), fmul(s.radius as int, s.radius as int));
    let discriminant = fsub(fmul(h, h), fmul(a, c));
    if a == 0 || s.radius == 0 || discriminant < 0 {
        None
    } else {
        let sqrtd = fsqrt(discriminant);
        let root1 = fdiv(fsub(h, sqrtd), a);
        let root = if spec_surrounds(ray_t, root1) {
            root1
        } else {
            fdiv(fadd(h, sqrtd), a)
        };
        if !spec_surrounds(ray_t, root) {
            None
        } else {
            let p = spec_ray_at(r, root);
            let outward_normal = v_div_s(v_sub(p, s.centre), s.radius as int);
            let rec = HitRecord {
                p,
                normal: outward_normal,
                t: root as i64,
                front_face: true,
                material: s.material,
            };
            Some(spec_set_face_normal(rec, r, outward_normal))
        }
    }
}

impl Sphere {
    /// A negative radius clamps to zero.
    pub fn new(centre: Point3, radius: i64, material: Option<Material>) -> (r: Self)
        ensures
            r.centre == centre,
            r.material == material,
            r.radius == if radius < 0 {
                0i64
            } else {
                radius
            },
            r.radius >= 0,
    {
        let rad = if radius < 0 {
            0
        } else {
            radius
        };
        Self { centre, radius: rad, material }
    }

    pub fn hit(&self, r: &Ray, ray_t: &Interval) -> (res: Option<HitRecord>)
        ensures
            res == spec_sphere_hit(*self, *r, *ray_t),
            crate::hittable::spec_hit_props(res, *r, *ray_t),
            res is Some ==> res->Some_0.material == self.material,
    {
        let oc: Vec3 = self.centre.sub(&r.origin());
        let a = r.direction().length_squared();
        let h = dot(&r.direction(), &oc);
        let c = fp_sub(oc.length_squared(), fp_mul(self.radius, self.radius));

        let discriminant = fp_sub(fp_mul(h, h), fp_mul(a, c));
        if a == 0 || self.radius == 0 || discriminant < 0 {
            return None;
        }

        let sqrtd = fp_sqrt(discriminant);

        // Find the nearest root that lies in the acceptable range
        let mut root = fp_div(fp_sub(h, sqrtd), a);
        if !ray_t.surrounds(root) {
            root = fp_div(fp_add(h, sqrtd), a);
            if !ray_t.surrounds(root) {
                return None;
            }
        }

        let mut hit = HitRecord {
            p: r.at(root),
            normal: Vec3::new(0, 0, 0),
            t: root,
            front_face: true,
            material: self.material,
        };
        let outward_normal = hit.p.sub(&self.centre).div(self.radius);
        hit.set_face_normal(r, &outward_normal);

        proof {
            if hit.front_face {
                assert(v_dot(r.direction, outward_normal) < 0);
                lemma_v_dot_comm(outward_normal, r.direction);
            } else {
                lemma_v_dot_comm(crate::vec3::v_neg(outward_normal), r.direction);
            }
        }

        Some(hit)
    }
}

proof fn lemma_v_dot_comm(a: Vec3, b: Vec3)
    ensures
        v_dot(a, b) == v_dot(b, a),
{
    assert((a.x as int) * (b.x as int) == (b.x as int) * (a.x as int));
    assert((a.y as int) * (b.y as int) == (b.y as int) * (a.y as int));
    assert((a.z as int) * (b.z as int) == (b.z as int) * (a.z as int));
}

} // verus!

//! Mirror reflection with an optional fuzz perturbation.

use vstd::prelude::*;

use crate::fixed::SCALE;
use crate::hittable::HitRecord;
use crate::ray::Ray;
use crate::rng::Rng;
use crate::vec3::{
    dot, spec_random_unit_vector, v_add, v_dot, v_norm_sq, v_reflect, v_scale, v_unit, Colour,
    Vec3,
};

verus! {

#[derive(Clone, Copy, Debug)]
pub struct Metal {
    pub albedo: Colour,
    pub fuzz: i64,
}

/// A fuzz parameter clamped into `[0, 1]`.
pub open spec fn spec_clamp_unit(f: int) -> int {
    if f < 0 {
        0
    } else if f > SCALE as int {
        SCALE as int
    } else {
        f
    }
}

/// Metallic scattering: the reflected incoming direction, normalised and
/// perturbed by fuzz. A reflection that lands on or under the surface is
/// absorbed, as is the degenerate zero reflection, which has no direction
/// to normalise.
pub open spec fn spec_metal_scatter(m: Metal, ray_in: Ray, hit: HitRecord, s: u64) -> (
    Option<(Ray, Colour)>,
    u64,
) {
    let refl0 = v_reflect(ray_in.direction, hit.normal);
    if v_norm_sq(refl0) == 0 {
        (None, s)
    } else {
        let (u, s1) = spec_random_unit_vector(s);
        let reflected = v_add(v_unit(refl0), v_scale(u, m.fuzz as int));
        if v_dot(reflected, hit.normal) > 0 {
            (Some((Ray { origin: hit.p, direction: reflected }, m.albedo)), s1)
        } else {
            (None, s1)
        }
    }
}

impl Metal {
    pub fn new(albedo: Colour, fuzz: i64) -> (r: Self)
        ensures
            r.albedo == albedo,
            r.fuzz as int == spec_clamp_unit(fuzz as int),
            0 <= r.fuzz <= SCALE,
    {
        let f = if fuzz < 0 {
            0
        } else if fuzz > SCALE {
            SCALE
        } else {
            fuzz
        };
        Self { albedo, fuzz: f }
    }

    pub fn scatter(&self, ray_in: &Ray, hit_rec: &HitRecord, rng: &mut Rng) -> (r: Option<
        (Ray, Colour),
    >)
        ensures
            r == spec_metal_scatter(*self, *ray_in, *hit_rec, old(rng).state).0,
            final(rng).state == spec_metal_scatter(*self, *ray_in, *hit_rec, old(rng).state).1,
    {
        let refl0 = ray_in.direction().reflect(&hit_rec.normal);
        if refl0.length_squared() == 0 {
            return None;
        }
        let u = Vec3::random_unit_vector(rng);
        let reflected = refl0.unit_vector().add(&u.scale(self.fuzz));
        let scattered = Ray::new(hit_rec.p, reflected);
        if dot(&scattered.direction(), &hit_rec.normal) > 0 {
            Some((scattered, self.albedo))
        } else {
            None
        }
    }
}

} // verus!

//! Diffuse scattering with a fixed albedo.

use vstd::prelude::*;

use crate::hittable::HitRecord;
use crate::ray::Ray;
use crate::rng::Rng;
use crate::vec3::{spec_random_unit_vector, v_add, v_near_zero, Colour, Vec3};

verus! {

#[derive(Clone, Copy, Debug)]
pub struct Lambertian {
    pub albedo: Colour,
}

/// Diffuse scattering: the normal nudged by a random unit vector; a
/// degenerate (zero) direction falls back to the normal itself. Always
/// scatters, attenuated by the albedo.
pub open spec fn spec_lambertian_scatter(m: Lambertian, hit: HitRecord, s: u64) -> (
    Option<(Ray, Colour)>,
    u64,
) {
    let (u, s1) = spec_random_unit_vector(s);
    let d = v_add(hit.normal, u);
    let direction = if v_near_zero(d) {
        hit.normal
    } else {
        d
    };
    (Some((Ray { origin: hit.p, direction }, m.albedo)), s1)
}

impl Lambertian {
    pub fn new(albedo: Colour) -> (r: Self)
        ensures
            r.albedo == albedo,
    {
        Self { albedo }
    }

    pub fn scatter(&self, _ray_in: &Ray, hit_rec: &HitRecord, rng: &mut Rng) -> (r: Option<
        (Ray, Colour),
    >)
        ensures
            r == spec_lambertian_scatter(*self, *hit_rec, old(rng).state).0,
            final(rng).state == spec_lambertian_scatter(*self, *hit_rec, old(rng).state).1,
            r is Some,
    {
        let u = Vec3::random_unit_vector(rng);
        let mut scatter_direction = hit_rec.normal.add(&u);
        if scatter_direction.near_zero() {
            scatter_direction = hit_rec.normal;
        }
        Some((Ray::new(hit_rec.p, scatter_direction), self.albedo))
    }
}

} // verus!

//! Surface materials: how a hit ray scatters, if at all.
//!
//! The open polymorphism of a trait object is closed into a tagged variant
//! dispatched by pattern match; materials are small immutable values shared
//! freely by the primitives that carry them.

use vstd::prelude::*;

use crate::hittable::HitRecord;
use crate::ray::Ray;
use crate::rng::Rng;
use crate::vec3::{v_norm_sq, Colour};

pub mod dielectric;
pub mod lambertian;
pub mod metal;

pub use dielectric::Dielectric;
pub use lambertian::Lambertian;
pub use metal::Metal;

verus! {

/// A surface material: Lambertian diffuse, fuzzed metal, or dielectric glass.
#[derive(Clone, Copy, Debug)]
pub enum Material {
    Lambertian(Lambertian),
    Metal(Metal),
    Dielectric(Dielectric),
}

/// Validity of a material's parameters.
pub open spec fn spec_material_wf(m: Material) -> bool {
    match m {
        Material::Dielectric(d) => d.refraction_index > 0,
        _ => true,
    }
}

/// What `Material::scatter` yields from a stream state: the scattered ray and
/// attenuation (or absorption) and the state left behind.
pub open spec fn spec_scatter(m: Material, ray_in: Ray, hit: HitRecord, s: u64) -> (
    Option<(Ray, Colour)>,
    u64,
)
    recommends
        spec_material_wf(m),
        v_norm_sq(ray_in.direction) > 0,
{
    match m {
        Material::Lambertian(l) => lambertian::spec_lambertian_scatter(l, hit, s),
        Material::Metal(me) => metal::spec_metal_scatter(me, ray_in, hit, s),
        Material::Dielectric(d) => dielectric::spec_dielectric_scatter(d, ray_in, hit, s),
    }
}

impl Material {
    /// Asks the material how the incoming ray scatters at the hit; absorption
    /// yields nothing and the light path ends.
    pub fn scatter(&self, ray_in: &Ray, hit_rec: &HitRecord, rng: &mut Rng) -> (r: Option<
        (Ray, Colour),
    >)
        requires
            spec_material_wf(*self),
            v_norm_sq(ray_in.direction) > 0,
        ensures
            r == spec_scatter(*self, *ray_in, *hit_rec, old(rng).state).0,
            final(rng).state == spec_scatter(*self, *ray_in, *hit_rec, old(rng).state).1,
    {
        match self {
            Material::Lambertian(l) => l.scatter(ray_in, hit_rec, rng),
            Material::Metal(me) => me.scatter(ray_in, hit_rec, rng),
            Material::Dielectric(d) => d.scatter(ray_in, hit_rec, rng),
        }
    }
}

} // verus!

//! Refractive glass: reflect or refract at the boundary.

use vstd::prelude::*;

use crate::fixed::{fadd, fdiv, fmul, fsqrt, fsub, fp_add, fp_div, fp_mul, fp_sqrt, fp_sub, SCALE};
use crate::hittable::HitRecord;
use crate::ray::Ray;
use crate::rng::{next_state, random_real, real_of, Rng};
use crate::vec3::{dot, v_dot, v_neg, v_norm_sq, v_reflect, v_refract, v_unit, Colour, Vec3};

verus! {

#[derive(Clone, Copy, Debug)]
pub struct Dielectric {
    pub refraction_index: i64,
}

/// The relative refraction index at the boundary: inverted when the ray
/// enters from outside the surface.
pub open spec fn spec_relative_index(m: Dielectric, front_face: bool) -> int
    recommends
        m.refraction_index > 0,
{
    if front_face {
        fdiv(SCALE as int, m.refraction_index as int)
    } else {
        m.refraction_index as int
    }
}

/// The cosine of the incidence angle, capped at one.
pub open spec fn spec_cos_theta(unit_dir: Vec3, normal: Vec3) -> int {
    let d = v_dot(v_neg(unit_dir), normal);
    if d > SCALE as int {
        SCALE as int
    } else {
        d
    }
}

/// The sine from the cosine; rounding can push `1 - cos^2` a hair below
/// zero, which is floored before the square root.
pub open spec fn spec_sin_theta(cos_theta: int) -> int {
    let t = fsub(SCALE as int, fmul(cos_theta, cos_theta));
    fsqrt(
        if t < 0 {
            0
        } else {
            t
        },
    )
}

/// Schlick's approximation of the reflectance.
pub open spec fn spec_reflectance(cosine: int, refraction_index: int) -> int
    recommends
        refraction_index >= 0,
{
    let r0 = fdiv(fsub(SCALE as int, refraction_index), fadd(SCALE as int, refraction_index));
    let r0sq = fmul(r0, r0);
    let omc = fsub(SCALE as int, cosine);
    let p5 = fmul(fmul(fmul(fmul(omc, omc), omc), omc), omc);
    fadd(r0sq, fmul(fsub(SCALE as int, r0sq), p5))
}

/// Dielectric scattering: reflect under total internal reflection or when
/// Schlick reflectance beats a fresh draw, refract otherwise. Never absorbs;
/// the attenuation is pure white.
pub open spec fn spec_dielectric_scatter(m: Dielectric, ray_in: Ray, hit: HitRecord, s: u64) -> (
    Option<(Ray, Colour)>,
    u64,
)
    recommends
        m.refraction_index > 0,
        v_norm_sq(ray_in.direction) > 0,
{
    let white = Vec3 { x: SCALE, y: SCALE, z: SCALE };
    let ri = spec_relative_index(m, hit.front_face);
    let unit_direction = v_unit(ray_in.direction);
    let cos_theta = spec_cos_theta(unit_direction, hit.normal);
    let sin_theta = spec_sin_theta(cos_theta);
    if fmul(ri, sin_theta) > SCALE as int {
        (Some((Ray { origin: hit.p, direction: v_reflect(unit_direction, hit.normal) }, white)), s)
    } else {
        let dr = real_of(s);
        let s1 = next_state(s);
        let direction = if spec_reflectance(cos_theta, ri) > dr {
            v_reflect(unit_direction, hit.normal)
        } else {
            v_refract(unit_direction, hit.normal, ri)
        };
        (Some((Ray { origin: hit.p, direction }, white)), s1)
    }
}

impl Dielectric {
    pub fn new(refraction_index: i64) -> (r: Self)
        ensures
            r.refraction_index == refraction_index,
    {
        Self { refraction_index }
    }

    pub fn reflectance(&self, cosine: i64, refraction_index: i64) -> (r: i64)
        requires
            refraction_index >= 0,
        ensures
            r as int == spec_reflectance(cosine as int, refraction_index as int),
    {
        let r0 = fp_div(fp_sub(SCALE, refraction_index), fp_add(SCALE, refraction_index));
        let r0sq = fp_mul(r0, r0);
        let omc = fp_sub(SCALE, cosine);
        let p5 = fp_mul(fp_mul(fp_mul(fp_mul(omc, omc), omc), omc), omc);
        fp_add(r0sq, fp_mul(fp_sub(SCALE, r0sq), p5))
    }

    pub fn scatter(&self, ray_in: &Ray, hit_rec: &HitRecord, rng: &mut Rng) -> (r: Option<
        (Ray, Colour),
    >)
        requires
            self.refraction_index > 0,
            v_norm_sq(ray_in.direction) > 0,
        ensures
            r == spec_dielectric_scatter(*self, *ray_in, *hit_rec, old(rng).state).0,
            final(rng).state == spec_dielectric_scatter(
                *self,
                *ray_in,
                *hit_rec,
                old(rng).state,
            ).1,
            r is Some,
    {
        let attenuation = Vec3::new(SCALE, SCALE, SCALE);
        let ri = if hit_rec.front_face {
            fp_div(SCALE, self.refraction_index)
        } else {
            self.refraction_index
        };

        let unit_direction = ray_in.direction().unit_vector();

        let d = dot(&unit_direction.neg(), &hit_rec.normal);
        let cos_theta = if d > SCALE {
            SCALE
        } else {
            d
        };
        let t = fp_sub(SCALE, fp_mul(cos_theta, cos_theta));
        let sin_theta = fp_sqrt(
            if t < 0 {
                0
            } else {
                t
            },
        );

        let cannot_refract = fp_mul(ri, sin_theta) > SCALE;

        let direction = if cannot_refract || self.reflectance(cos_theta, ri) > random_real(rng) {
            unit_direction.reflect(&hit_rec.normal)
        } else {
            unit_direction.refract(&hit_rec.normal, ri)
        };

        Some((Ray::new(hit_rec.p, direction), attenuation))
    }
}

/// Total internal reflection: once the relative index times the sine of the
/// incidence angle exceeds one, scattering reflects the incoming direction,
/// whatever value the random stream would supply.
pub proof fn lemma_total_internal_reflection(m: Dielectric, ray_in: Ray, hit: HitRecord, s: u64)
    requires
        m.refraction_index > 0,
        v_norm_sq(ray_in.direction) > 0,
        fmul(
            spec_relative_index(m, hit.front_face),
            spec_sin_theta(spec_cos_theta(v_unit(ray_in.direction), hit.normal)),
        ) > SCALE as int,
    ensures
        spec_dielectric_scatter(m, ray_in, hit, s).1 == s,
        spec_dielectric_scatter(m, ray_in, hit, s).0 is Some,
        spec_dielectric_scatter(m, ray_in, hit, s).0->Some_0.0.direction == v_reflect(
            v_unit(ray_in.direction),
            hit.normal,
        ),
{
}

} // verus!

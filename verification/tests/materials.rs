use rt_one_weekend::fixed::{fp_mul, fp_sqrt, fp_sub, SCALE};
use rt_one_weekend::hittable::HitRecord;
use rt_one_weekend::material::{Dielectric, Lambertian, Material, Metal};
use rt_one_weekend::ray::Ray;
use rt_one_weekend::rng::Rng;
use rt_one_weekend::vec3::{dot, Point3, Vec3};

fn record(p: Point3, normal: Vec3, front_face: bool) -> HitRecord {
    HitRecord { p, normal, t: SCALE, front_face, material: None }
}

#[test]
fn lambertian_always_scatters_with_albedo() {
    let albedo = Vec3::new(32768, 16384, 8192);
    let m = Lambertian::new(albedo);
    let hit = record(Point3::new(0, 0, -SCALE), Vec3::new(0, 0, SCALE), true);
    let ray_in = Ray::new(Point3::new(0, 0, 0), Vec3::new(0, 0, -SCALE));
    for seed in 0..16u64 {
        let mut rng = Rng::new(seed);
        let (scattered, attenuation) = m.scatter(&ray_in, &hit, &mut rng).expect("must scatter");
        assert_eq!(attenuation, albedo);
        assert_eq!(scattered.origin, hit.p);
        // the scatter direction is the normal nudged by the unit draw
        let mut rng2 = Rng::new(seed);
        let u = Vec3::random_unit_vector(&mut rng2);
        let mut expected = hit.normal.add(&u);
        if expected.near_zero() {
            expected = hit.normal;
        }
        assert_eq!(scattered.direction, expected);
        assert!(!scattered.direction.near_zero());
    }
}

#[test]
fn metal_clamps_fuzz() {
    let albedo = Vec3::new(SCALE, SCALE, SCALE);
    assert_eq!(Metal::new(albedo, 3 * SCALE).fuzz, SCALE);
    assert_eq!(Metal::new(albedo, -5).fuzz, 0);
    assert_eq!(Metal::new(albedo, 300).fuzz, 300);
}

#[test]
fn metal_reflects_off_the_surface() {
    let albedo = Vec3::new(45875, 39321, 32768);
    let m = Metal::new(albedo, 0);
    // grazing bounce off the floor
    let hit = record(Point3::new(0, 0, 0), Vec3::new(0, SCALE, 0), true);
    let ray_in = Ray::new(Point3::new(-SCALE, SCALE, 0), Vec3::new(SCALE, -SCALE, 0));
    let mut rng = Rng::new(7);
    let (scattered, attenuation) = m.scatter(&ray_in, &hit, &mut rng).expect("reflects");
    assert_eq!(attenuation, albedo);
    // with zero fuzz the direction is the normalised mirror image
    let expected = ray_in.direction().reflect(&hit.normal).unit_vector();
    let diff = scattered.direction.sub(&expected);
    assert_eq!(diff, Vec3::new(0, 0, 0));
    assert!(dot(&scattered.direction, &hit.normal) > 0);
}

#[test]
fn metal_absorbs_rays_bounced_into_the_surface() {
    let m = Metal::new(Vec3::new(SCALE, SCALE, SCALE), 0);
    // incoming along the normal itself: the mirror image points below
    let hit = record(Point3::new(0, 0, 0), Vec3::new(0, SCALE, 0), true);
    let ray_in = Ray::new(Point3::new(0, -SCALE, 0), Vec3::new(0, SCALE, 0));
    let mut rng = Rng::new(3);
    assert!(m.scatter(&ray_in, &hit, &mut rng).is_none());
}

#[test]
fn dielectric_always_scatters_white() {
    let d = Dielectric::new(98304);  // index 1.5
    let hit = record(Point3::new(0, 0, -SCALE), Vec3::new(0, 0, SCALE), true);
    let ray_in = Ray::new(Point3::new(0, 0, 0), Vec3::new(0, 0, -SCALE));
    for seed in 0..16u64 {
        let mut rng = Rng::new(seed);
        let (scattered, attenuation) = d.scatter(&ray_in, &hit, &mut rng).expect("never absorbs");
        assert_eq!(attenuation, Vec3::new(SCALE, SCALE, SCALE));
        assert_eq!(scattered.origin, hit.p);
    }
}

#[test]
fn schlick_reflectance_at_normal_incidence() {
    let d = Dielectric::new(98304);
    // entering glass head on: about four percent reflectance
    assert_eq!(d.reflectance(SCALE, 43690), 2621);
}

#[test]
fn total_internal_reflection_ignores_the_draw() {
    // Inside glass (index 1.5), 45 degrees of incidence: sin * 1.5 > 1, so
    // every stream state must choose reflection and leave the stream alone.
    let index = 98304i64;
    let d = Dielectric::new(index);
    let normal = Vec3::new(0, 0, SCALE);
    let hit = record(Point3::new(0, 0, 0), normal, false);
    let dir = Vec3::new(SCALE, 0, -SCALE);
    let ray_in = Ray::new(Point3::new(-SCALE, 0, SCALE), dir);

    // the boundary condition itself, computed as the material computes it
    let unit = dir.unit_vector();
    let cos = dot(&unit.neg(), &normal).min(SCALE);
    let t = fp_sub(SCALE, fp_mul(cos, cos));
    let sin = fp_sqrt(t.max(0));
    assert!(fp_mul(index, sin) > SCALE, "the case must be total internal reflection");

    let expected = unit.reflect(&normal);
    for seed in 0..32u64 {
        let mut rng = Rng::new(seed);
        let (scattered, attenuation) = d.scatter(&ray_in, &hit, &mut rng).expect("reflects");
        assert_eq!(scattered.direction, expected);
        assert_eq!(attenuation, Vec3::new(SCALE, SCALE, SCALE));
        // no draw was spent deciding
        assert_eq!(rng.state, seed);
    }
}

#[test]
fn material_dispatch_matches_variants() {
    let hit = record(Point3::new(0, 0, -SCALE), Vec3::new(0, 0, SCALE), true);
    let ray_in = Ray::new(Point3::new(0, 0, 0), Vec3::new(0, 0, -SCALE));
    let albedo = Vec3::new(32768, 32768, 32768);

    let m = Material::Lambertian(Lambertian::new(albedo));
    let mut rng = Rng::new(5);
    let (_, att) = m.scatter(&ray_in, &hit, &mut rng).expect("scatters");
    assert_eq!(att, albedo);

    let m = Material::Dielectric(Dielectric::new(98304));
    let mut rng = Rng::new(5);
    let (_, att) = m.scatter(&ray_in, &hit, &mut rng).expect("scatters");
    assert_eq!(att, Vec3::new(SCALE, SCALE, SCALE));
}

#[test]
fn random_samplers_stay_in_their_domains() {
    let mut rng = Rng::new(42);
    for _ in 0..64 {
        let u = Vec3::random_unit_vector(&mut rng);
        let err = (u.length_squared() - SCALE).abs();
        assert!(err <= 1000, "unit vector norm out of tolerance: {:?}", u);

        let p = Vec3::random_in_unit_disk(&mut rng);
        assert_eq!(p.z, 0);
        assert!(p.length_squared() < SCALE);

        let n = Vec3::new(0, SCALE, 0);
        let h = Vec3::random_on_hemisphere(&n, &mut rng);
        assert!(dot(&h, &n) >= 0);
    }
}

#[test]
fn stream_is_deterministic_per_seed() {
    let mut a = Rng::new(12345);
    let mut b = Rng::new(12345);
    for _ in 0..32 {
        assert_eq!(a.next(), b.next());
    }
    let mut c = Rng::new(12346);
    let mut any_diff = false;
    let mut a2 = Rng::new(12345);
    for _ in 0..8 {
        if a2.next() != c.next() {
            any_diff = true;
        }
    }
    assert!(any_diff);
}

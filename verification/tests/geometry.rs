use rt_one_weekend::fixed::SCALE;
use rt_one_weekend::hittable::{Hittable, HittableList, Sphere};
use rt_one_weekend::ray::Ray;
use rt_one_weekend::util::Interval;
use rt_one_weekend::vec3::{dot, Point3, Vec3};

fn unit_sphere_at(z: i64) -> Sphere {
    Sphere::new(Point3::new(0, 0, z), SCALE, None)
}

#[test]
fn sphere_hit_head_on() {
    // Unit sphere two units down the -z axis, ray straight at it: t == 1.0.
    let s = unit_sphere_at(-2 * SCALE);
    let r = Ray::new(Point3::new(0, 0, 0), Vec3::new(0, 0, -SCALE));
    let hit = s.hit(&r, &Interval::new(1, i64::MAX)).expect("must hit");
    assert_eq!(hit.t, SCALE);
    assert_eq!(hit.p, Point3::new(0, 0, -SCALE));
    assert_eq!(hit.normal, Vec3::new(0, 0, SCALE));
    assert!(hit.front_face);
    // the oriented normal opposes the ray
    assert!(dot(&hit.normal, &r.direction()) < 0);
}

#[test]
fn sphere_hit_respects_interval() {
    let s = unit_sphere_at(-2 * SCALE);
    let r = Ray::new(Point3::new(0, 0, 0), Vec3::new(0, 0, -SCALE));
    // the near root t=1 is outside (2, inf); the far root t=3 is taken
    let hit = s.hit(&r, &Interval::new(2 * SCALE, i64::MAX)).expect("far root");
    assert_eq!(hit.t, 3 * SCALE);
    assert!(!hit.front_face);
    // both roots outside: no hit
    assert!(s.hit(&r, &Interval::new(4 * SCALE, i64::MAX)).is_none());
}

#[test]
fn sphere_miss_and_degenerate_cases() {
    let s = unit_sphere_at(-2 * SCALE);
    // aimed away: no intersection
    let up = Ray::new(Point3::new(0, 0, 0), Vec3::new(0, SCALE, 0));
    assert!(s.hit(&up, &Interval::new(1, i64::MAX)).is_none());
    // a ray without direction cannot hit
    let still = Ray::new(Point3::new(0, 0, 0), Vec3::new(0, 0, 0));
    assert!(s.hit(&still, &Interval::new(1, i64::MAX)).is_none());
    // a zero-radius sphere is never hit
    let point_sphere = Sphere::new(Point3::new(0, 0, -2 * SCALE), 0, None);
    let at_it = Ray::new(Point3::new(0, 0, 0), Vec3::new(0, 0, -SCALE));
    assert!(point_sphere.hit(&at_it, &Interval::new(1, i64::MAX)).is_none());
}

#[test]
fn negative_radius_clamps_to_zero() {
    let s = Sphere::new(Point3::new(0, 0, 0), -5 * SCALE, None);
    assert_eq!(s.radius, 0);
}

#[test]
fn interval_containment() {
    let i = Interval::new(0, SCALE);
    assert!(i.surrounds(1));
    assert!(!i.surrounds(0));
    assert!(!i.surrounds(SCALE));
    assert!(i.contains(0));
    assert!(i.contains(SCALE));
    assert!(!i.contains(-1));
}

#[test]
fn list_returns_nearest_hit() {
    let mut world = HittableList::new();
    world.add(Hittable::Sphere(unit_sphere_at(-5 * SCALE)));
    world.add(Hittable::Sphere(unit_sphere_at(-2 * SCALE)));
    let r = Ray::new(Point3::new(0, 0, 0), Vec3::new(0, 0, -SCALE));
    let hit = world.hit(&r, &Interval::new(1, i64::MAX)).expect("must hit");
    assert_eq!(hit.t, SCALE);

    // same scene, other insertion order: the near sphere still wins
    let mut world2 = HittableList::new();
    world2.add(Hittable::Sphere(unit_sphere_at(-2 * SCALE)));
    world2.add(Hittable::Sphere(unit_sphere_at(-5 * SCALE)));
    let hit2 = world2.hit(&r, &Interval::new(1, i64::MAX)).expect("must hit");
    assert_eq!(hit2.t, SCALE);
}

#[test]
fn empty_list_never_hits() {
    let world = HittableList::new();
    let r = Ray::new(Point3::new(0, 0, 0), Vec3::new(0, 0, -SCALE));
    assert!(world.hit(&r, &Interval::new(1, i64::MAX)).is_none());
}

#[test]
fn clear_empties_the_list() {
    let mut world = HittableList::new();
    world.add(Hittable::Sphere(unit_sphere_at(-2 * SCALE)));
    world.clear();
    let r = Ray::new(Point3::new(0, 0, 0), Vec3::new(0, 0, -SCALE));
    assert!(world.hit(&r, &Interval::new(1, i64::MAX)).is_none());
}

#[test]
fn ray_evaluation() {
    let r = Ray::new(Point3::new(SCALE, 0, 0), Vec3::new(0, 2 * SCALE, 0));
    assert_eq!(r.origin(), Point3::new(SCALE, 0, 0));
    assert_eq!(r.direction(), Vec3::new(0, 2 * SCALE, 0));
    assert_eq!(r.at(32768), Point3::new(SCALE, SCALE, 0));
}

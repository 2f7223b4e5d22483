use rt_one_weekend::camera::{Camera, CameraOptions};
use rt_one_weekend::fixed::{fp_add, fp_mul, fp_sub, SCALE};
use rt_one_weekend::grid::Grid;
use rt_one_weekend::hittable::{Hittable, HittableList, Sphere};
use rt_one_weekend::material::{Lambertian, Material};
use rt_one_weekend::ray::Ray;
use rt_one_weekend::renderer::{pixel_seed, ray_colour, render_pixel, Renderer, T_EPS, T_INF};
use rt_one_weekend::rng::Rng;
use rt_one_weekend::util::Interval;
use rt_one_weekend::vec3::{Colour, Point3, Vec3};

/// The background-gradient formula, written out from the primitives.
fn background_formula(r: &Ray) -> Colour {
    let unit = r.direction().unit_vector();
    let a = fp_mul(32768, fp_add(unit.y(), SCALE));
    let white = Colour::new(SCALE, SCALE, SCALE);
    let blue = Colour::new(32768, 45875, SCALE);
    white.scale(fp_sub(SCALE, a)).add(&blue.scale(a))
}

#[test]
fn zero_depth_trace_is_black() {
    let mut world = HittableList::new();
    world.add(Hittable::Sphere(Sphere::new(Point3::new(0, 0, -2 * SCALE), SCALE, None)));
    let black = Colour::new(0, 0, 0);
    for seed in 0..8u64 {
        let mut rng = Rng::new(seed);
        let r = Ray::new(Point3::new(0, 0, 0), Vec3::new(seed as i64, -SCALE, -3 * SCALE));
        assert_eq!(ray_colour(&r, 0, &world, &mut rng), black);
        assert_eq!(ray_colour(&r, -3, &world, &mut rng), black);
        // no draw was spent
        assert_eq!(rng.state, seed);
    }
}

#[test]
fn empty_scene_shows_the_gradient() {
    let world = HittableList::new();
    // straight down the axis: the gradient at a == 1/2 exactly
    let r = Ray::new(Point3::new(0, 0, 0), Vec3::new(0, 0, -SCALE));
    let mut rng = Rng::new(9);
    let c = ray_colour(&r, 5, &world, &mut rng);
    assert_eq!(c, Colour::new(49152, 55705, 65536));
    assert_eq!(rng.state, 9);
    // and for arbitrary directions it matches the formula
    for seed in 1..6i64 {
        let r = Ray::new(Point3::new(0, 0, 0), Vec3::new(seed * 1000, seed * 300, -SCALE));
        let mut rng = Rng::new(77);
        assert_eq!(ray_colour(&r, 3, &world, &mut rng), background_formula(&r));
    }
}

#[test]
fn absorbed_paths_are_black() {
    // a hit on a sphere with no material ends the path at black
    let mut world = HittableList::new();
    world.add(Hittable::Sphere(Sphere::new(Point3::new(0, 0, -2 * SCALE), SCALE, None)));
    let r = Ray::new(Point3::new(0, 0, 0), Vec3::new(0, 0, -SCALE));
    let mut rng = Rng::new(4);
    assert_eq!(ray_colour(&r, 5, &world, &mut rng), Colour::new(0, 0, 0));
}

#[test]
fn one_bounce_tints_by_the_albedo() {
    let albedo = Vec3::new(32768, 32768, 32768);
    let mat = Material::Lambertian(Lambertian::new(albedo));
    let mut world = HittableList::new();
    world.add(Hittable::Sphere(Sphere::new(Point3::new(0, 0, -2 * SCALE), SCALE, Some(mat))));
    let r = Ray::new(Point3::new(0, 0, 0), Vec3::new(0, 0, -SCALE));

    let seed = 11u64;
    let mut rng = Rng::new(seed);
    let c = ray_colour(&r, 2, &world, &mut rng);

    // replay the same stream by hand: hit, scatter, then the recursive trace
    let mut rng2 = Rng::new(seed);
    let hit = world.hit(&r, &Interval::new(T_EPS, T_INF)).expect("must hit");
    let (scattered, attenuation) = mat.scatter(&r, &hit, &mut rng2).expect("lambertian scatters");
    let inner = ray_colour(&scattered, 1, &world, &mut rng2);
    assert_eq!(attenuation, albedo);
    assert_eq!(c, attenuation.mul(&inner));
    assert_eq!(rng.state, rng2.state);
}

fn scene_camera() -> (HittableList, Camera) {
    // the two-sphere scene: a half-unit sphere dead ahead over a huge ground
    let albedo = Vec3::new(32768, 32768, 32768);
    let mat = Material::Lambertian(Lambertian::new(albedo));
    let mut world = HittableList::new();
    world.add(Hittable::Sphere(Sphere::new(Point3::new(0, 0, -SCALE), 32768, Some(mat))));
    world.add(
        Hittable::Sphere(Sphere::new(Point3::new(0, -6586368, -SCALE), 100 * SCALE, Some(mat))),
    );
    let options = CameraOptions {
        aspect_ratio: 116508,  // 16:9
        image_width: 400,
        image_height: 225,
        tan_half_fov: SCALE,  // a vertical field of view of 90 degrees
        look_from: Point3::new(0, 0, 0),
        look_at: Point3::new(0, 0, -SCALE),
        v_up: Vec3::new(0, SCALE, 0),
        tan_half_defocus: 0,
        focus_dist: SCALE,
    };
    (world, Camera::new(&options))
}

/// One pixel recomputed by replaying the renderer's stream.
fn replay_pixel(
    cam: &Camera,
    world: &HittableList,
    depth: i32,
    x: usize,
    y: usize,
    seed: u64,
) -> ([u8; 3], Ray, Colour) {
    let w = cam.width() as usize;
    let mut rng = Rng::new(pixel_seed(seed, (y * w + x) as u64));
    let ray = cam.hit_ray(x, y, &mut rng);
    let c = ray_colour(&ray, depth, world, &mut rng);
    (c.to_rgb_gamma_corrected(), ray, c)
}

#[test]
fn end_to_end_two_sphere_scene() {
    let (world, cam) = scene_camera();
    let renderer = Renderer {
        camera: cam,
        filename: String::from("unused.png"),
        samples: 1,
        max_depth: 2,
    };
    let seed = 20260412u64;
    let grid = renderer.render_img(&world, seed);
    assert_eq!(grid.width(), 400);
    assert_eq!(grid.height(), 225);
    assert_eq!(grid.size(), 400 * 225);

    // a corner pixel looks up and away: it misses both spheres and must show
    // exactly the background gradient of its jittered ray
    let (expected, ray, colour) = replay_pixel(&cam, &world, 2, 0, 0, seed);
    assert!(world.hit(&ray, &Interval::new(T_EPS, T_INF)).is_none(), "corner ray must miss");
    assert_eq!(colour, background_formula(&ray));
    assert_eq!(*grid.get(0, 0), expected);

    // the pixel through the small sphere's centre is one bounce: the albedo
    // tinting the trace of the scattered ray, and not the background
    let (expected, ray, colour) = replay_pixel(&cam, &world, 2, 200, 112, seed);
    let hit = world.hit(&ray, &Interval::new(T_EPS, T_INF)).expect("centre ray must hit");
    assert_eq!(hit.material.is_some(), true);
    assert_ne!(colour, background_formula(&ray));
    let mut rng = Rng::new(pixel_seed(seed, (112usize * 400 + 200) as u64));
    let ray2 = cam.hit_ray(200, 112, &mut rng);
    let mat = hit.material.expect("material");
    let (scattered, attenuation) = mat.scatter(&ray2, &hit, &mut rng).expect("scatters");
    let inner = ray_colour(&scattered, 1, &world, &mut rng);
    assert_eq!(colour, attenuation.mul(&inner));
    // when the bounced ray escapes, the tinted background is what remains
    if world.hit(&scattered, &Interval::new(T_EPS, T_INF)).is_none() {
        assert_eq!(inner, background_formula(&scattered));
    }
    assert_eq!(*grid.get(200, 112), expected);
}

#[test]
fn rendering_twice_is_bit_identical() {
    let (world, cam) = scene_camera();
    let renderer = Renderer {
        camera: cam,
        filename: String::from("unused.png"),
        samples: 1,
        max_depth: 2,
    };
    let seed = 7u64;
    let g1 = renderer.render_img(&world, seed);
    let g2 = renderer.render_img(&world, seed);
    assert_eq!(g1.width(), g2.width());
    assert_eq!(g1.height(), g2.height());
    for y in 0..g1.height() {
        for x in 0..g1.width() {
            assert_eq!(g1.get(x, y), g2.get(x, y));
        }
    }
}

#[test]
fn every_pixel_of_an_empty_scene_is_background() {
    let world = HittableList::new();
    let options = CameraOptions {
        aspect_ratio: SCALE,
        image_width: 8,
        image_height: 8,
        tan_half_fov: SCALE,
        look_from: Point3::new(0, 0, 0),
        look_at: Point3::new(0, 0, -SCALE),
        v_up: Vec3::new(0, SCALE, 0),
        tan_half_defocus: 0,
        focus_dist: SCALE,
    };
    let cam = Camera::new(&options);
    let renderer = Renderer {
        camera: cam,
        filename: String::from("unused.png"),
        samples: 1,
        max_depth: 4,
    };
    let seed = 99u64;
    let grid = renderer.render_img(&world, seed);
    for y in 0..8usize {
        for x in 0..8usize {
            let mut rng = Rng::new(pixel_seed(seed, (y * 8 + x) as u64));
            let ray = cam.hit_ray(x, y, &mut rng);
            let expected = background_formula(&ray).to_rgb_gamma_corrected();
            assert_eq!(*grid.get(x, y), expected);
        }
    }
}

#[test]
fn estimate_averages_the_samples_exactly() {
    let (world, cam) = scene_camera();
    let samples = 4i32;
    let seed = 5150u64;
    let px = render_pixel(&cam, &world, samples, 2, 200, 112, seed);

    // the same samples, summed and divided by hand
    let mut rng = Rng::new(seed);
    let mut sum = (0i128, 0i128, 0i128);
    for _ in 0..samples {
        let ray = cam.hit_ray(200, 112, &mut rng);
        let c = ray_colour(&ray, 2, &world, &mut rng);
        sum = (sum.0 + c.x as i128, sum.1 + c.y as i128, sum.2 + c.z as i128);
    }
    let avg = Colour::new(
        (sum.0 / samples as i128) as i64,
        (sum.1 / samples as i128) as i64,
        (sum.2 / samples as i128) as i64,
    );
    assert_eq!(px, avg.to_rgb_gamma_corrected());
}

#[test]
fn defocus_rays_start_on_the_lens_disk() {
    let options = CameraOptions {
        aspect_ratio: SCALE,
        image_width: 16,
        image_height: 16,
        tan_half_fov: SCALE,
        look_from: Point3::new(0, 0, 0),
        look_at: Point3::new(0, 0, -SCALE),
        v_up: Vec3::new(0, SCALE, 0),
        tan_half_defocus: 6554,  // about 0.1
        focus_dist: 10 * SCALE,
    };
    let cam = Camera::new(&options);
    let mut rng = Rng::new(31);
    let mut moved = false;
    for _ in 0..16 {
        let ray = cam.hit_ray(8, 8, &mut rng);
        // the origin stays on the lens disk around the centre
        let offset = ray.origin().sub(&Point3::new(0, 0, 0));
        assert!(offset.length() <= SCALE);
        if offset.length_squared() > 0 {
            moved = true;
        }
    }
    assert!(moved, "the lens must move some ray origins");
}

#[test]
fn grid_cells_round_trip() {
    let mut g: Grid<[u8; 3]> = Grid::new(5, 3, [0, 0, 0]);
    assert_eq!(g.width(), 5);
    assert_eq!(g.height(), 3);
    assert_eq!(g.size(), 15);
    g.set_all_parallel(|x, y| [x as u8, y as u8, 7]);
    for y in 0..3usize {
        for x in 0..5usize {
            assert_eq!(*g.get(x, y), [x as u8, y as u8, 7]);
        }
    }
}

#[test]
fn default_camera_shape() {
    let cam = Camera::default();
    assert_eq!(cam.width(), 100);
    assert_eq!(cam.height(), 100);
    assert_eq!(cam.tan_half_defocus, 0);
    // its rays leave the camera centre
    let mut rng = Rng::new(1);
    let ray = cam.hit_ray(50, 50, &mut rng);
    assert_eq!(ray.origin(), Point3::new(0, 0, 0));
}

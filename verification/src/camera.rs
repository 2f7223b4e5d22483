//! The thin-lens camera: viewport and defocus-disk geometry derived once at
//! construction, and per-pixel jittered sample rays.
//!
//! Field-of-view and defocus angles enter as the tangent of the half-angle,
//! already in fixed point; callers convert from degrees before building the
//! options.

use vstd::prelude::*;

use crate::fixed::{fadd, fmul, fp_add, fp_from_int, fp_mul, fp_sub, fsub, int_to_fp, SCALE};
use crate::ray::Ray;
use crate::rng::{next_state, random_real, real_of, Rng};
use crate::vec3::{
    cross, spec_random_in_unit_disk, v_add, v_cross, v_neg, v_norm_sq, v_scale, v_sub, v_unit,
    Point3, Vec3,
};

verus! {

/// Half of one in fixed point.
pub const HALF_FP: i64 = 32768;

/// Two in fixed point.
pub const TWO_FP: i64 = 2 * SCALE;

#[derive(Clone, Copy, Debug)]
pub struct CameraOptions {
    pub aspect_ratio: i64,
    pub image_width: i32,
    pub image_height: i32,
    /// Tangent of half the vertical field of view.
    pub tan_half_fov: i64,
    pub look_from: Point3,
    pub look_at: Point3,
    pub v_up: Vec3,
    /// Tangent of half the defocus cone angle; zero or less disables the lens.
    pub tan_half_defocus: i64,
    pub focus_dist: i64,
}

#[derive(Clone, Copy, Debug)]
pub struct Camera {
    pub aspect_ratio: i64,
    pub image_width: i32,
    pub image_height: i32,
    pub tan_half_fov: i64,
    pub look_from: Point3,
    pub look_at: Point3,
    pub v_up: Vec3,
    pub tan_half_defocus: i64,
    pub focus_dist: i64,
    pub centre: Point3,
    pub pixel00_loc: Point3,
    pub pixel_delta_u: Vec3,
    pub pixel_delta_v: Vec3,
    pub u: Vec3,
    pub v: Vec3,
    pub w: Vec3,
    pub defocus_disk_u: Vec3,
    pub defocus_disk_v: Vec3,
}

/// The orthonormal basis, viewport vectors, pixel origin and defocus-disk
/// basis that a camera derives from its options.
pub open spec fn spec_camera_new(o: CameraOptions) -> Camera {
    let centre = o.look_from;
    let h = o.tan_half_fov as int;
    let viewport_height = fmul(fadd(h, h), o.focus_dist as int);
    let viewport_width = fmul(
        viewport_height,
        crate::fixed::fdiv(int_to_fp(o.image_width as int), int_to_fp(o.image_height as int)),
    );
    let w = v_unit(v_sub(o.look_from, o.look_at));
    let u = v_unit(v_cross(o.v_up, w));
    let v = v_cross(w, u);
    let viewport_u = v_scale(u, viewport_width);
    let viewport_v = v_scale(v_neg(v), viewport_height);
    let pixel_delta_u = crate::vec3::v_div_s(viewport_u, int_to_fp(o.image_width as int));
    let pixel_delta_v = crate::vec3::v_div_s(viewport_v, int_to_fp(o.image_height as int));
    let viewport_upper_left = v_sub(
        v_sub(
            v_sub(centre, v_scale(w, o.focus_dist as int)),
            crate::vec3::v_div_s(viewport_u, TWO_FP as int),
        ),
        crate::vec3::v_div_s(viewport_v, TWO_FP as int),
    );
    let pixel00_loc = v_add(
        viewport_upper_left,
        v_scale(v_add(pixel_delta_u, pixel_delta_v), HALF_FP as int),
    );
    let defocus_radius = fmul(o.focus_dist as int, o.tan_half_defocus as int);
    Camera {
        aspect_ratio: o.aspect_ratio,
        image_width: o.image_width,
        image_height: o.image_height,
        tan_half_fov: o.tan_half_fov,
        look_from: o.look_from,
        look_at: o.look_at,
        v_up: o.v_up,
        tan_half_defocus: o.tan_half_defocus,
        focus_dist: o.focus_dist,
        centre,
        pixel00_loc,
        pixel_delta_u,
        pixel_delta_v,
        u,
        v,
        w,
        defocus_disk_u: v_scale(u, defocus_radius),
        defocus_disk_v: v_scale(v, defocus_radius),
    }
}

/// Options a camera can be derived from: positive pixel dimensions, a proper
/// viewing direction, and an up vector independent of it.
pub open spec fn spec_camera_options_wf(o: CameraOptions) -> bool {
    &&& o.image_width > 0
    &&& o.image_height > 0
    &&& v_norm_sq(v_sub(o.look_from, o.look_at)) > 0
    &&& v_norm_sq(v_cross(o.v_up, v_unit(v_sub(o.look_from, o.look_at)))) > 0
}

/// The jitter of one pixel sample: offsets drawn uniformly from `[-1/2, 1/2)`.
pub open spec fn spec_sample_square(s: u64) -> (Vec3, u64) {
    let s1 = next_state(s);
    let s2 = next_state(s1);
    (
        Vec3 {
            x: (real_of(s) - HALF_FP as int) as i64,
            y: (real_of(s1) - HALF_FP as int) as i64,
            z: 0,
        },
        s2,
    )
}

fn sample_square(rng: &mut Rng) -> (r: Vec3)
    ensures
        r == spec_sample_square(old(rng).state).0,
        final(rng).state == spec_sample_square(old(rng).state).1,
{
    let x = random_real(rng);
    let y = random_real(rng);
    Vec3 { x: x - HALF_FP, y: y - HALF_FP, z: 0 }
}

/// Where a defocus-disk sample ray originates.
pub open spec fn spec_defocus_disk_sample(c: Camera, s: u64) -> (Point3, u64) {
    let (p, s1) = spec_random_in_unit_disk(s);
    (
        v_add(
            v_add(c.centre, v_scale(c.defocus_disk_u, p.x as int)),
            v_scale(c.defocus_disk_v, p.y as int),
        ),
        s1,
    )
}

/// The jittered camera ray for pixel `(x, y)`: through a uniform point of the
/// pixel square, from the camera centre or from the defocus disk.
pub open spec fn spec_hit_ray(c: Camera, x: int, y: int, s: u64) -> (Ray, u64) {
    let (offset, s1) = spec_sample_square(s);
    let pixel_sample = v_add(
        v_add(c.pixel00_loc, v_scale(c.pixel_delta_u, fadd(int_to_fp(x), offset.x as int))),
        v_scale(c.pixel_delta_v, fadd(int_to_fp(y), offset.y as int)),
    );
    if c.tan_half_defocus <= 0 {
        (Ray { origin: c.centre, direction: v_sub(pixel_sample, c.centre) }, s1)
    } else {
        let (origin, s2) = spec_defocus_disk_sample(c, s1);
        (Ray { origin, direction: v_sub(pixel_sample, origin) }, s2)
    }
}

impl Camera {
    pub fn new(options: &CameraOptions) -> (r: Self)
        requires
            spec_camera_options_wf(*options),
        ensures
            r == spec_camera_new(*options),
    {
        let centre = options.look_from;
        let h = options.tan_half_fov;
        let viewport_height = fp_mul(fp_add(h, h), options.focus_dist);
        let fp_width = fp_from_int(options.image_width as i64);
        let fp_height = fp_from_int(options.image_height as i64);
        proof {
            assert((options.image_width as int) * (SCALE as int) >= 65536) by (nonlinear_arith)
                requires
                    options.image_width >= 1,
                    SCALE as int == 65536,
            ;
            assert((options.image_height as int) * (SCALE as int) >= 65536) by (nonlinear_arith)
                requires
                    options.image_height >= 1,
                    SCALE as int == 65536,
            ;
        }
        let viewport_width = fp_mul(viewport_height, crate::fixed::fp_div(fp_width, fp_height));

        let w = options.look_from.sub(&options.look_at).unit_vector();
        let u = cross(&options.v_up, &w).unit_vector();
        let v = cross(&w, &u);

        let viewport_u = u.scale(viewport_width);
        let viewport_v = v.neg().scale(viewport_height);

        let pixel_delta_u = viewport_u.div(fp_width);
        let pixel_delta_v = viewport_v.div(fp_height);

        let viewport_upper_left = centre
            .sub(&w.scale(options.focus_dist))
            .sub(&viewport_u.div(TWO_FP))
            .sub(&viewport_v.div(TWO_FP));
        let pixel00_loc = viewport_upper_left.add(
            &pixel_delta_u.add(&pixel_delta_v).scale(HALF_FP),
        );

        let defocus_radius = fp_mul(options.focus_dist, options.tan_half_defocus);

        Camera {
            aspect_ratio: options.aspect_ratio,
            image_width: options.image_width,
            image_height: options.image_height,
            tan_half_fov: options.tan_half_fov,
            look_from: options.look_from,
            look_at: options.look_at,
            v_up: options.v_up,
            tan_half_defocus: options.tan_half_defocus,
            focus_dist: options.focus_dist,
            centre,
            pixel00_loc,
            pixel_delta_u,
            pixel_delta_v,
            u,
            v,
            w,
            defocus_disk_u: u.scale(defocus_radius),
            defocus_disk_v: v.scale(defocus_radius),
        }
    }

    pub fn width(&self) -> (r: i32)
        ensures
            r == self.image_width,
    {
        self.image_width
    }

    pub fn height(&self) -> (r: i32)
        ensures
            r == self.image_height,
    {
        self.image_height
    }

    fn defocus_disk_sample(&self, rng: &mut Rng) -> (r: Point3)
        ensures
            r == spec_defocus_disk_sample(*self, old(rng).state).0,
            final(rng).state == spec_defocus_disk_sample(*self, old(rng).state).1,
    {
        let p = Point3::random_in_unit_disk(rng);
        self.centre.add(&self.defocus_disk_u.scale(p.x())).add(&self.defocus_disk_v.scale(p.y()))
    }

    pub fn hit_ray(&self, x: usize, y: usize, rng: &mut Rng) -> (r: Ray)
        requires
            x < 0x8000_0000_0000_0000,
            y < 0x8000_0000_0000_0000,
        ensures
            r == spec_hit_ray(*self, x as int, y as int, old(rng).state).0,
            final(rng).state == spec_hit_ray(*self, x as int, y as int, old(rng).state).1,
    {
        let offset = sample_square(rng);

        let pixel_sample = self
            .pixel00_loc
            .add(&self.pixel_delta_u.scale(fp_add(fp_from_int(x as i64), offset.x())))
            .add(&self.pixel_delta_v.scale(fp_add(fp_from_int(y as i64), offset.y())));
        let ray_origin = if self.tan_half_defocus <= 0 {
            self.centre
        } else {
            self.defocus_disk_sample(rng)
        };
        let ray_direction = pixel_sample.sub(&ray_origin);
        Ray::new(ray_origin, ray_direction)
    }
}

/// The options the default camera is built from: a square viewport one unit
/// of focus away, looking down the negative z-axis.
pub open spec fn spec_default_camera_options() -> CameraOptions {
    CameraOptions {
        aspect_ratio: SCALE,
        image_width: 100,
        image_height: 100,
        tan_half_fov: SCALE,
        look_from: Vec3 { x: 0, y: 0, z: 0 },
        look_at: Vec3 { x: 0, y: 0, z: (-SCALE) as i64 },
        v_up: Vec3 { x: 0, y: SCALE, z: 0 },
        tan_half_defocus: 0,
        focus_dist: (10 * SCALE) as i64,
    }
}

impl Default for Camera {
    fn default() -> (r: Camera)
        ensures
            r == spec_camera_new(spec_default_camera_options()),
    {
        let options = CameraOptions {
            aspect_ratio: SCALE,
            image_width: 100,
            image_height: 100,
            tan_half_fov: SCALE,
            look_from: Point3::new(0, 0, 0),
            look_at: Point3::new(0, 0, -SCALE),
            v_up: Vec3::new(0, SCALE, 0),
            tan_half_defocus: 0,
            focus_dist: 10 * SCALE,
        };
        proof {
            let d = v_sub(options.look_from, options.look_at);
            assert(65536int * 65536int == 4294967296int) by (nonlinear_arith);
            assert(65537int * 65537int == 4295098369int) by (nonlinear_arith);
            assert(0int * 0int == 0int) by (nonlinear_arith);
            assert(4294967296int / 65536int == 65536int);
            assert(0int / 65536int == 0int);
            assert(d == (Vec3 { x: 0, y: 0, z: SCALE }));
            assert(v_norm_sq(d) == SCALE as int);
            assert(crate::fixed::is_sqrt((SCALE as int) * (SCALE as int), SCALE as int));
            crate::fixed::lemma_sqrt_i_is((SCALE as int) * (SCALE as int), SCALE as int);
            assert(v_unit(d) == (Vec3 { x: 0, y: 0, z: SCALE }));
            assert(v_cross(options.v_up, v_unit(d)) == (Vec3 { x: SCALE, y: 0, z: 0 }));
            assert(v_norm_sq(v_cross(options.v_up, v_unit(d))) == SCALE as int);
        }
        Camera::new(&options)
    }
}

} // verus!

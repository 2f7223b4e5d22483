//! The radiance estimator and the sample-averaging renderer.

use vstd::prelude::*;

use crate::camera::{spec_hit_ray, Camera, HALF_FP};
use crate::fixed::{
    div_trunc, fadd, fmul, fsub, fp_add, fp_mul, fp_sub, FP_MAX, SCALE,
};
use crate::grid::{spec_grid_wf, Grid};
use crate::hittable::{spec_list_hit, spec_list_wf, HittableList};
use crate::material::spec_scatter;
use crate::ray::Ray;
use crate::rng::{next_state, Rng, LCG_INC, LCG_MUL};
use crate::util::Interval;
use crate::vec3::{to_byte_gamma, v_add, v_mul, v_norm_sq, v_scale, v_unit, Colour, Vec3};

verus! {

/// Smallest accepted hit parameter, about `0.001`: suppresses spurious
/// self-intersection of a scattered ray with its own surface.
pub const T_EPS: i64 = 66;

/// Upper bound on the hit parameter: effectively unbounded.
pub const T_INF: i64 = 0x7fff_ffff_ffff_ffff;

/// Per-pixel stride used to derive independent seeds from a base seed.
pub const SEED_STRIDE: u64 = 0x9E3779B97F4A7C15;

pub open spec fn spec_black() -> Colour {
    Vec3 { x: 0, y: 0, z: 0 }
}

pub open spec fn spec_white() -> Colour {
    Vec3 { x: SCALE, y: SCALE, z: SCALE }
}

/// Light blue, `(0.5, 0.7, 1.0)` carried to fixed point (`0.7` rounds down).
pub open spec fn spec_sky_blue() -> Colour {
    Vec3 { x: HALF_FP, y: 45875, z: SCALE }
}

/// The background gradient: white blended toward light blue by the height of
/// the ray's unit direction. For a direction much shorter than one unit the
/// fixed-point normalisation is inaccurate, so the blend can overshoot one;
/// the quantisation that follows clamps each channel into `[0, 1]` first.
pub open spec fn spec_background(r: Ray) -> Colour
    recommends
        v_norm_sq(r.direction) > 0,
{
    let unit_direction = v_unit(r.direction);
    let a = fmul(HALF_FP as int, fadd(unit_direction.y as int, SCALE as int));
    v_add(v_scale(spec_white(), fsub(SCALE as int, a)), v_scale(spec_sky_blue(), a))
}

/// The recursive radiance estimate of one ray, and the stream state left
/// behind. Exhausted depth and degenerate rays yield black; a miss yields the
/// background; absorption ends the path at black; a scatter tints the
/// recursive estimate with the attenuation.
pub open spec fn spec_ray_colour(r: Ray, depth: int, world: HittableList, s: u64) -> (Colour, u64)
    decreases depth,
{
    if depth <= 0 {
        (spec_black(), s)
    } else if v_norm_sq(r.direction) == 0 {
        (spec_black(), s)
    } else {
        match spec_list_hit(world, r, Interval { min: T_EPS, max: T_INF }) {
            Some(hit) => match hit.material {
                Some(material) => {
                    let (sc, s1) = spec_scatter(material, r, hit, s);
                    match sc {
                        Some((scattered, attenuation)) => {
                            let (rest, s2) = spec_ray_colour(scattered, depth - 1, world, s1);
                            (v_mul(attenuation, rest), s2)
                        },
                        None => (spec_black(), s1),
                    }
                },
                None => (spec_black(), s),
            },
            None => (spec_background(r), s),
        }
    }
}

/// Every estimate stays inside the fixed-point range: each branch returns
/// black, a saturating blend, or a saturating product. This is the range the
/// estimate is guaranteed before quantisation; it is wider than `[0, 1]`
/// (an albedo above one, or the background of a very short direction, can
/// push a channel past one), which is why quantisation clamps first.
pub proof fn lemma_ray_colour_bounded(r: Ray, depth: int, world: HittableList, s: u64)
    ensures
        -(FP_MAX as int) <= spec_ray_colour(r, depth, world, s).0.x as int <= FP_MAX as int,
        -(FP_MAX as int) <= spec_ray_colour(r, depth, world, s).0.y as int <= FP_MAX as int,
        -(FP_MAX as int) <= spec_ray_colour(r, depth, world, s).0.z as int <= FP_MAX as int,
{
}

pub fn ray_colour(r: &Ray, depth: i32, world: &HittableList, rng: &mut Rng) -> (c: Colour)
    requires
        spec_list_wf(*world),
    ensures
        c == spec_ray_colour(*r, depth as int, *world, old(rng).state).0,
        final(rng).state == spec_ray_colour(*r, depth as int, *world, old(rng).state).1,
        depth <= 0 ==> c == spec_black() && final(rng).state == old(rng).state,
    decreases depth,
{
    if depth <= 0 {
        return Colour::new(0, 0, 0);
    }
    let dsq = r.direction().length_squared();
    if dsq == 0 {
        return Colour::new(0, 0, 0);
    }
    if let Some(hit) = world.hit(r, &Interval::new(T_EPS, T_INF)) {
        if let Some(material) = hit.material {
            if let Some((scattered, attenuation)) = material.scatter(r, &hit, rng) {
                let rest = ray_colour(&scattered, depth - 1, world, rng);
                return attenuation.mul(&rest);
            }
            return Colour::new(0, 0, 0);
        }
        return Colour::new(0, 0, 0);
    }

    let unit_direction = r.direction().unit_vector();
    let a = fp_mul(HALF_FP, fp_add(unit_direction.y(), SCALE));
    let white = Colour::new(SCALE, SCALE, SCALE);
    let blue = Colour::new(HALF_FP, 45875, SCALE);
    white.scale(fp_sub(SCALE, a)).add(&blue.scale(a))
}

/// The exact componentwise sum of `n` successive path samples for pixel
/// `(x, y)`, and the stream state left behind.
pub open spec fn spec_pixel_sum(
    c: Camera,
    world: HittableList,
    x: int,
    y: int,
    n: int,
    depth: int,
    s: u64,
) -> ((int, int, int), u64)
    decreases n,
{
    if n <= 0 {
        ((0, 0, 0), s)
    } else {
        let (ray, s1) = spec_hit_ray(c, x, y, s);
        let (col, s2) = spec_ray_colour(ray, depth, world, s1);
        let (rest, s3) = spec_pixel_sum(c, world, x, y, n - 1, depth, s2);
        ((col.x + rest.0, col.y + rest.1, col.z + rest.2), s3)
    }
}

/// The pre-quantisation estimate: the exact sample sum divided by the sample
/// count, truncated toward zero at fixed-point resolution.
pub open spec fn spec_average(sum: (int, int, int), n: int) -> Colour
    recommends
        n >= 1,
{
    Vec3 {
        x: div_trunc(sum.0, n) as i64,
        y: div_trunc(sum.1, n) as i64,
        z: div_trunc(sum.2, n) as i64,
    }
}

/// The finished pixel: the gamma-corrected quantisation of the mean sample.
pub open spec fn spec_render_pixel(
    c: Camera,
    world: HittableList,
    n: int,
    depth: int,
    x: int,
    y: int,
    seed: u64,
) -> Seq<u8> {
    let avg = spec_average(spec_pixel_sum(c, world, x, y, n, depth, seed).0, n);
    seq![to_byte_gamma(avg.x as int), to_byte_gamma(avg.y as int), to_byte_gamma(avg.z as int)]
}

/// A quotient of a bounded sum stays bounded.
proof fn lemma_div_trunc_bound(a: int, n: int, bound: int)
    requires
        n >= 1,
        bound >= 0,
        -(n * bound) <= a <= n * bound,
    ensures
        -bound <= div_trunc(a, n) <= bound,
{
    let m = crate::fixed::abs_i(a);
    let q = m / n;
    vstd::arithmetic::div_mod::lemma_fundamental_div_mod(m, n);
    assert(q <= bound) by (nonlinear_arith)
        requires
            m == q * n + (m % n),
            0 <= m % n,
            m <= n * bound,
            n >= 1,
            bound >= 0,
            q >= 0,
    ;
    assert(q >= 0) by (nonlinear_arith)
        requires
            q == m / n,
            m >= 0,
            n >= 1,
    ;
}

/// Truncated division of a sample-sum channel by the sample count.
fn avg_channel(sum: i128, n: i32) -> (r: i64)
    requires
        n >= 1,
        -((n as int) * (FP_MAX as int)) <= sum as int <= (n as int) * (FP_MAX as int),
    ensures
        r as int == div_trunc(sum as int, n as int),
        -FP_MAX <= r <= FP_MAX,
{
    proof {
        lemma_div_trunc_bound(sum as int, n as int, FP_MAX as int);
    }
    let neg = sum < 0;
    let mag: u128 = if neg {
        (-sum) as u128
    } else {
        sum as u128
    };
    let q = mag / (n as u128);
    let qi = q as i64;
    if neg {
        -qi
    } else {
        qi
    }
}

/// One pixel of the image: `samples` jittered path samples, averaged exactly,
/// gamma-corrected and quantised.
#[verifier::rlimit(100)]
pub fn render_pixel(
    camera: &Camera,
    world: &HittableList,
    samples: i32,
    max_depth: i32,
    x: usize,
    y: usize,
    seed: u64,
) -> (px: [u8; 3])
    requires
        spec_list_wf(*world),
        samples >= 1,
        x < 0x8000_0000_0000_0000,
        y < 0x8000_0000_0000_0000,
    ensures
        px@ == spec_render_pixel(
            *camera,
            *world,
            samples as int,
            max_depth as int,
            x as int,
            y as int,
            seed,
        ),
{
    let mut rng = Rng::new(seed);
    let mut sum_x: i128 = 0;
    let mut sum_y: i128 = 0;
    let mut sum_z: i128 = 0;
    let mut k: i32 = 0;
    while k < samples
        invariant
            spec_list_wf(*world),
            samples >= 1,
            x < 0x8000_0000_0000_0000,
            y < 0x8000_0000_0000_0000,
            0 <= k <= samples,
            -((k as int) * (FP_MAX as int)) <= sum_x as int <= (k as int) * (FP_MAX as int),
            -((k as int) * (FP_MAX as int)) <= sum_y as int <= (k as int) * (FP_MAX as int),
            -((k as int) * (FP_MAX as int)) <= sum_z as int <= (k as int) * (FP_MAX as int),
            ({
                let (rest, s_rest) = spec_pixel_sum(
                    *camera,
                    *world,
                    x as int,
                    y as int,
                    (samples - k) as int,
                    max_depth as int,
                    rng.state,
                );
                let (total, s_total) = spec_pixel_sum(
                    *camera,
                    *world,
                    x as int,
                    y as int,
                    samples as int,
                    max_depth as int,
                    seed,
                );
                &&& sum_x as int + rest.0 == total.0
                &&& sum_y as int + rest.1 == total.1
                &&& sum_z as int + rest.2 == total.2
                &&& s_rest == s_total
            }),
        decreases samples - k,
    {
        let ghost prev = rng.state;
        let ray = camera.hit_ray(x, y, &mut rng);
        let ghost s1 = rng.state;
        let col = ray_colour(&ray, max_depth, world, &mut rng);
        proof {
            lemma_ray_colour_bounded(ray, max_depth as int, *world, s1);
            assert(spec_pixel_sum(
                *camera,
                *world,
                x as int,
                y as int,
                (samples - k) as int,
                max_depth as int,
                prev,
            ) == {
                let (rest, s3) = spec_pixel_sum(
                    *camera,
                    *world,
                    x as int,
                    y as int,
                    (samples - k - 1) as int,
                    max_depth as int,
                    rng.state,
                );
                (((col.x as int + rest.0), (col.y as int + rest.1), (col.z as int + rest.2)), s3)
            });
        }
        sum_x = sum_x + col.x as i128;
        sum_y = sum_y + col.y as i128;
        sum_z = sum_z + col.z as i128;
        k = k + 1;
    }
    let avg = Colour::new(avg_channel(sum_x, samples), avg_channel(sum_y, samples), avg_channel(
        sum_z,
        samples,
    ));
    avg.to_rgb_gamma_corrected()
}

/// The seed of pixel `index`, derived from the render's base seed.
pub open spec fn spec_pixel_seed(seed: u64, index: u64) -> u64 {
    next_state(
        vstd::wrapping::u64_specs::wrapping_add(
            seed,
            vstd::wrapping::u64_specs::wrapping_mul(index, SEED_STRIDE),
        ),
    )
}

pub fn pixel_seed(seed: u64, index: u64) -> (r: u64)
    ensures
        r == spec_pixel_seed(seed, index),
{
    proof {
        reveal(crate::rng::next_state);
    }
    let t = seed.wrapping_add(index.wrapping_mul(SEED_STRIDE));
    t.wrapping_mul(LCG_MUL).wrapping_add(LCG_INC)
}

/// The renderer: a camera, a sample count, a recursion bound, and the
/// file name the caller will encode the buffer to.
#[derive(Debug)]
pub struct Renderer {
    pub camera: Camera,
    pub filename: String,
    pub samples: i32,
    pub max_depth: i32,
}

impl Renderer {
    /// Renders the scene into a fresh pixel buffer, pixels shared out across
    /// the worker pool, each an exact function of the scene, the camera, the
    /// render parameters and the base seed.
    pub fn render_img(&self, world: &HittableList, seed: u64) -> (g: Grid<[u8; 3]>)
        requires
            spec_list_wf(*world),
            self.samples >= 1,
            self.camera.image_width > 0,
            self.camera.image_height > 0,
            (self.camera.image_width as int) * (self.camera.image_height as int) <= usize::MAX,
        ensures
            g.width == self.camera.image_width,
            g.height == self.camera.image_height,
            spec_grid_wf(g),
            forall|x: usize, y: usize|
                x < g.width && y < g.height ==> (#[trigger] g.cells@[y * g.width + x])@
                    == spec_render_pixel(
                    self.camera,
                    *world,
                    self.samples as int,
                    self.max_depth as int,
                    x as int,
                    y as int,
                    spec_pixel_seed(seed, (y * g.width + x) as u64),
                ),
    {
        let w = self.camera.width() as usize;
        let h = self.camera.height() as usize;
        let mut grid: Grid<[u8; 3]> = Grid::new(w, h, [0u8, 0u8, 0u8]);
        let camera = self.camera;
        let samples = self.samples;
        let max_depth = self.max_depth;
        let setter = |x: usize, y: usize| -> (px: [u8; 3])
            requires
                x < w,
                y < h,
                (w as int) * (h as int) <= usize::MAX,
            ensures
                px@ == spec_render_pixel(
                    camera,
                    *world,
                    samples as int,
                    max_depth as int,
                    x as int,
                    y as int,
                    spec_pixel_seed(seed, (y * w + x) as u64),
                ),
            {
                proof {
                    assert((y as int) * (w as int) + (x as int) < (w as int) * (h as int))
                        by (nonlinear_arith)
                        requires
                            0 <= x as int,
                            (x as int) < w as int,
                            0 <= y as int,
                            (y as int) < h as int,
                    ;
                    assert(0 <= (y as int) * (w as int)) by (nonlinear_arith)
                        requires
                            0 <= y as int,
                            0 <= w as int,
                    ;
                }
                let idx = y * w + x;
                render_pixel(&camera, world, samples, max_depth, x, y, pixel_seed(seed, idx as u64))
            };
        grid.set_all_parallel(setter);
        grid
    }
}

/// With no depth left a trace is exactly black and draws nothing.
pub proof fn lemma_trace_depth_zero(r: Ray, depth: int, world: HittableList, s: u64)
    requires
        depth <= 0,
    ensures
        spec_ray_colour(r, depth, world, s) == (spec_black(), s),
{
}

/// A scene with no hittables shows the background gradient to every ray that
/// has a direction and depth left.
pub proof fn lemma_empty_scene_background(r: Ray, depth: int, world: HittableList, s: u64)
    requires
        world.objects@.len() == 0,
        depth >= 1,
        v_norm_sq(r.direction) > 0,
    ensures
        spec_ray_colour(r, depth, world, s) == (spec_background(r), s),
{
    assert(spec_list_hit(world, r, Interval { min: T_EPS, max: T_INF }) is None);
}

/// A pixel's sample sum never outgrows the per-sample range.
pub proof fn lemma_pixel_sum_bounded(
    c: Camera,
    world: HittableList,
    x: int,
    y: int,
    n: int,
    depth: int,
    s: u64,
)
    requires
        n >= 0,
    ensures
        ({
            let (sum, _) = spec_pixel_sum(c, world, x, y, n, depth, s);
            &&& -(n * (FP_MAX as int)) <= sum.0 <= n * (FP_MAX as int)
            &&& -(n * (FP_MAX as int)) <= sum.1 <= n * (FP_MAX as int)
            &&& -(n * (FP_MAX as int)) <= sum.2 <= n * (FP_MAX as int)
        }),
    decreases n,
{
    if n > 0 {
        let (ray, s1) = spec_hit_ray(c, x, y, s);
        let (col, s2) = spec_ray_colour(ray, depth, world, s1);
        lemma_ray_colour_bounded(ray, depth, world, s1);
        lemma_pixel_sum_bounded(c, world, x, y, n - 1, depth, s2);
    }
}

/// The pre-quantisation estimate of a pixel is the exact mean of its path
/// samples: each channel is the exact sample sum divided by the sample count.
pub proof fn lemma_pixel_estimate_exact(
    c: Camera,
    world: HittableList,
    x: int,
    y: int,
    n: int,
    depth: int,
    s: u64,
)
    requires
        n >= 1,
    ensures
        ({
            let (sum, _) = spec_pixel_sum(c, world, x, y, n, depth, s);
            &&& spec_average(sum, n).x as int == div_trunc(sum.0, n)
            &&& spec_average(sum, n).y as int == div_trunc(sum.1, n)
            &&& spec_average(sum, n).z as int == div_trunc(sum.2, n)
        }),
{
    lemma_pixel_sum_bounded(c, world, x, y, n, depth, s);
    let (sum, _) = spec_pixel_sum(c, world, x, y, n, depth, s);
    lemma_estimate_is_exact_mean(sum, n);
}

/// The pre-quantisation estimate is the exact mean: each channel of the
/// average is the exact sample sum divided by the sample count.
pub proof fn lemma_estimate_is_exact_mean(sum: (int, int, int), n: int)
    requires
        n >= 1,
        -(n * (FP_MAX as int)) <= sum.0 <= n * (FP_MAX as int),
        -(n * (FP_MAX as int)) <= sum.1 <= n * (FP_MAX as int),
        -(n * (FP_MAX as int)) <= sum.2 <= n * (FP_MAX as int),
    ensures
        spec_average(sum, n).x as int == div_trunc(sum.0, n),
        spec_average(sum, n).y as int == div_trunc(sum.1, n),
        spec_average(sum, n).z as int == div_trunc(sum.2, n),
{
    lemma_div_trunc_bound(sum.0, n, FP_MAX as int);
    lemma_div_trunc_bound(sum.1, n, FP_MAX as int);
    lemma_div_trunc_bound(sum.2, n, FP_MAX as int);
}

/// Rendering is reproducible: with one scene, camera, configuration and base
/// seed, every pixel of the output is pinned, so two renders agree cell for
/// cell.
pub proof fn lemma_render_deterministic(
    g1: Grid<[u8; 3]>,
    g2: Grid<[u8; 3]>,
    c: Camera,
    world: HittableList,
    samples: int,
    depth: int,
    seed: u64,
)
    requires
        g1.width == g2.width,
        g1.height == g2.height,
        spec_grid_wf(g1),
        spec_grid_wf(g2),
        forall|x: usize, y: usize|
            x < g1.width && y < g1.height ==> (#[trigger] g1.cells@[y * g1.width + x])@
                == spec_render_pixel(
                c,
                world,
                samples,
                depth,
                x as int,
                y as int,
                spec_pixel_seed(seed, (y * g1.width + x) as u64),
            ),
        forall|x: usize, y: usize|
            x < g2.width && y < g2.height ==> (#[trigger] g2.cells@[y * g2.width + x])@
                == spec_render_pixel(
                c,
                world,
                samples,
                depth,
                x as int,
                y as int,
                spec_pixel_seed(seed, (y * g2.width + x) as u64),
            ),
    ensures
        forall|x: usize, y: usize|
            x < g1.width && y < g1.height ==> (#[trigger] g1.cells@[y * g1.width + x])@ == (
            #[trigger] g2.cells@[y * g2.width + x])@,
{
}

} // verus!

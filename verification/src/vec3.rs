//! Three-component fixed-point vectors: points, directions and colours.

use vstd::prelude::*;

use crate::fixed::{
    fabs, fadd, fdiv, fmul, fneg, fsqrt, fsub, fp_abs, fp_add, fp_div, fp_mul, fp_neg, fp_sqrt,
    fp_sub, is_sqrt, sqrt_i, SCALE,
};
use crate::rng::{next_state, random_real, random_symmetric, real_of, symm_of, Rng};

verus! {

/// A point, direction or colour: three fixed-point components.
#[derive(Clone, Copy, PartialEq, Eq, Structural, Debug)]
pub struct Vec3 {
    pub x: i64,
    pub y: i64,
    pub z: i64,
}

pub type Point3 = Vec3;

pub type Colour = Point3;

pub open spec fn v_add(a: Vec3, b: Vec3) -> Vec3 {
    Vec3 {
        x: fadd(a.x as int, b.x as int) as i64,
        y: fadd(a.y as int, b.y as int) as i64,
        z: fadd(a.z as int, b.z as int) as i64,
    }
}

pub open spec fn v_sub(a: Vec3, b: Vec3) -> Vec3 {
    Vec3 {
        x: fsub(a.x as int, b.x as int) as i64,
        y: fsub(a.y as int, b.y as int) as i64,
        z: fsub(a.z as int, b.z as int) as i64,
    }
}

pub open spec fn v_neg(a: Vec3) -> Vec3 {
    Vec3 { x: fneg(a.x as int) as i64, y: fneg(a.y as int) as i64, z: fneg(a.z as int) as i64 }
}

/// Componentwise product: colour tinting.
pub open spec fn v_mul(a: Vec3, b: Vec3) -> Vec3 {
    Vec3 {
        x: fmul(a.x as int, b.x as int) as i64,
        y: fmul(a.y as int, b.y as int) as i64,
        z: fmul(a.z as int, b.z as int) as i64,
    }
}

pub open spec fn v_scale(a: Vec3, s: int) -> Vec3 {
    Vec3 {
        x: fmul(a.x as int, s) as i64,
        y: fmul(a.y as int, s) as i64,
        z: fmul(a.z as int, s) as i64,
    }
}

pub open spec fn v_div_s(a: Vec3, s: int) -> Vec3
    recommends
        s != 0,
{
    Vec3 {
        x: fdiv(a.x as int, s) as i64,
        y: fdiv(a.y as int, s) as i64,
        z: fdiv(a.z as int, s) as i64,
    }
}

pub open spec fn v_dot(a: Vec3, b: Vec3) -> int {
    fadd(
        fadd(fmul(a.x as int, b.x as int), fmul(a.y as int, b.y as int)),
        fmul(a.z as int, b.z as int),
    )
}

pub open spec fn v_cross(a: Vec3, b: Vec3) -> Vec3 {
    Vec3 {
        x: fsub(fmul(a.y as int, b.z as int), fmul(a.z as int, b.y as int)) as i64,
        y: fsub(fmul(a.z as int, b.x as int), fmul(a.x as int, b.z as int)) as i64,
        z: fsub(fmul(a.x as int, b.y as int), fmul(a.y as int, b.x as int)) as i64,
    }
}

pub open spec fn v_norm_sq(a: Vec3) -> int {
    v_dot(a, a)
}

pub open spec fn v_len(a: Vec3) -> int {
    fsqrt(v_norm_sq(a))
}

pub open spec fn v_unit(a: Vec3) -> Vec3
    recommends
        v_norm_sq(a) > 0,
{
    v_div_s(a, v_len(a))
}

/// All components smaller in magnitude than one fixed-point unit: exactly zero.
pub open spec fn v_near_zero(a: Vec3) -> bool {
    abs_of(a.x as int) < 1 && abs_of(a.y as int) < 1 && abs_of(a.z as int) < 1
}

pub open spec fn abs_of(x: int) -> int {
    crate::fixed::abs_i(x)
}

/// Mirror reflection about a normal: `v - 2*dot(v, n)*n`.
pub open spec fn v_reflect(v: Vec3, n: Vec3) -> Vec3 {
    v_sub(v, v_scale(n, fadd(v_dot(v, n), v_dot(v, n))))
}

/// Snell refraction of `v` about `n` with relative index `eta`.
pub open spec fn v_refract(v: Vec3, n: Vec3, eta: int) -> Vec3 {
    let d = v_dot(v_neg(v), n);
    let cos_theta = if d > SCALE as int {
        SCALE as int
    } else {
        d
    };
    let r_out_perp = v_scale(v_add(v, v_scale(n, cos_theta)), eta);
    let a = fsqrt(fabs(fsub(SCALE as int, v_norm_sq(r_out_perp))));
    v_add(r_out_perp, v_scale(n, fneg(a)))
}

proof fn lemma_fmul_self_nonneg(a: int)
    ensures
        fmul(a, a) >= 0,
{
    assert(a * a >= 0) by (nonlinear_arith);
}

/// A squared length is never negative.
pub proof fn lemma_norm_sq_nonneg(a: Vec3)
    ensures
        v_norm_sq(a) >= 0,
{
    lemma_fmul_self_nonneg(a.x as int);
    lemma_fmul_self_nonneg(a.y as int);
    lemma_fmul_self_nonneg(a.z as int);
}

impl Point3 {
    pub fn new(x: i64, y: i64, z: i64) -> (r: Self)
        ensures
            r == (Vec3 { x, y, z }),
    {
        Self { x, y, z }
    }

    pub fn x(&self) -> (r: i64)
        ensures
            r == self.x,
    {
        self.x
    }

    pub fn y(&self) -> (r: i64)
        ensures
            r == self.y,
    {
        self.y
    }

    pub fn z(&self) -> (r: i64)
        ensures
            r == self.z,
    {
        self.z
    }

    pub fn add(&self, rhs: &Vec3) -> (r: Vec3)
        ensures
            r == v_add(*self, *rhs),
    {
        Vec3 { x: fp_add(self.x, rhs.x), y: fp_add(self.y, rhs.y), z: fp_add(self.z, rhs.z) }
    }

    pub fn sub(&self, rhs: &Vec3) -> (r: Vec3)
        ensures
            r == v_sub(*self, *rhs),
    {
        Vec3 { x: fp_sub(self.x, rhs.x), y: fp_sub(self.y, rhs.y), z: fp_sub(self.z, rhs.z) }
    }

    pub fn neg(&self) -> (r: Vec3)
        ensures
            r == v_neg(*self),
    {
        Vec3 { x: fp_neg(self.x), y: fp_neg(self.y), z: fp_neg(self.z) }
    }

    /// Componentwise product.
    pub fn mul(&self, rhs: &Vec3) -> (r: Vec3)
        ensures
            r == v_mul(*self, *rhs),
    {
        Vec3 { x: fp_mul(self.x, rhs.x), y: fp_mul(self.y, rhs.y), z: fp_mul(self.z, rhs.z) }
    }

    /// Scalar product.
    pub fn scale(&self, s: i64) -> (r: Vec3)
        ensures
            r == v_scale(*self, s as int),
    {
        Vec3 { x: fp_mul(self.x, s), y: fp_mul(self.y, s), z: fp_mul(self.z, s) }
    }

    /// Scalar division.
    pub fn div(&self, s: i64) -> (r: Vec3)
        requires
            s != 0,
        ensures
            r == v_div_s(*self, s as int),
    {
        Vec3 { x: fp_div(self.x, s), y: fp_div(self.y, s), z: fp_div(self.z, s) }
    }

    pub fn length_squared(&self) -> (r: i64)
        ensures
            r as int == v_norm_sq(*self),
            r >= 0,
    {
        proof {
            lemma_norm_sq_nonneg(*self);
        }
        fp_add(fp_add(fp_mul(self.x, self.x), fp_mul(self.y, self.y)), fp_mul(self.z, self.z))
    }

    pub fn length(&self) -> (r: i64)
        ensures
            r as int == v_len(*self),
            crate::fixed::is_sqrt(v_norm_sq(*self) * (SCALE as int), r as int),
            r >= 0,
    {
        fp_sqrt(self.length_squared())
    }

    /// The vector scaled to unit length. The zero vector has no direction,
    /// so callers must rule it out.
    pub fn unit_vector(&self) -> (r: Vec3)
        requires
            v_norm_sq(*self) != 0,
        ensures
            r == v_unit(*self),
    {
        let len = self.length();
        proof {
            lemma_norm_sq_nonneg(*self);
            if len == 0 {
                assert(v_norm_sq(*self) * (SCALE as int) < (0 + 1) * (0 + 1));
                assert(v_norm_sq(*self) * (SCALE as int) >= 1 * 65536) by (nonlinear_arith)
                    requires
                        v_norm_sq(*self) >= 1,
                ;
            }
        }
        self.div(len)
    }

    /// True exactly when every component is zero: the smallest representable
    /// magnitude is one fixed-point unit.
    pub fn near_zero(&self) -> (r: bool)
        ensures
            r == v_near_zero(*self),
    {
        fp_abs(self.x) < 1 && fp_abs(self.y) < 1 && fp_abs(self.z) < 1
    }

    /// A vector of three fresh uniform draws from `[0, 1)`.
    pub fn random_real(rng: &mut Rng) -> (r: Self)
        ensures
            r == spec_random_real(old(rng).state).0,
            final(rng).state == spec_random_real(old(rng).state).1,
    {
        let x = random_real(rng);
        let y = random_real(rng);
        let z = random_real(rng);
        Vec3 { x, y, z }
    }

    /// A vector of three fresh uniform draws from `[-1, 1]`.
    pub fn random_symmetric(rng: &mut Rng) -> (r: Self)
        ensures
            r == spec_random_symmetric(old(rng).state).0,
            final(rng).state == spec_random_symmetric(old(rng).state).1,
    {
        let x = random_symmetric(rng);
        let y = random_symmetric(rng);
        let z = random_symmetric(rng);
        Vec3 { x, y, z }
    }

    /// Rejection-samples the unit ball and normalises the accepted point.
    /// The number of rounds is capped so that the function is total; once
    /// the cap is spent (the odds of that are vanishing) the unit x-axis
    /// stands in.
    #[verifier::rlimit(50)]
    pub fn random_unit_vector(rng: &mut Rng) -> (r: Self)
        ensures
            r == spec_random_unit_vector(old(rng).state).0,
            final(rng).state == spec_random_unit_vector(old(rng).state).1,
    {
        let mut tries: u64 = UNIT_TRIES;
        while tries > 0
            invariant
                spec_ruv_go(rng.state, tries as nat) == spec_ruv_go(
                    old(rng).state,
                    UNIT_TRIES as nat,
                ),
            decreases tries,
        {
            let ghost prev = rng.state;
            let ghost t = tries as nat;
            let p = Self::random_symmetric(rng);
            let lensq = p.length_squared();
            proof {
                assert(p == spec_random_symmetric(prev).0);
                assert(rng.state == spec_random_symmetric(prev).1);
                if 0 < lensq as int <= SCALE as int {
                    assert(spec_ruv_go(prev, t) == (v_div_s(p, fsqrt(v_norm_sq(p))), rng.state));
                } else {
                    assert(spec_ruv_go(prev, t) == spec_ruv_go(rng.state, (t - 1) as nat));
                }
            }
            if 0 < lensq && lensq <= SCALE {
                proof {
                    lemma_pos_norm_sq_has_pos_sqrt(p);
                }
                return p.div(fp_sqrt(lensq));
            }
            tries = tries - 1;
        }
        Vec3 { x: SCALE, y: 0, z: 0 }
    }

    /// The accepted sample mirrored about the normal's hemisphere.
    pub fn random_on_hemisphere(normal: &Point3, rng: &mut Rng) -> (r: Self)
        ensures
            r == spec_random_on_hemisphere(*normal, old(rng).state).0,
            final(rng).state == spec_random_on_hemisphere(*normal, old(rng).state).1,
    {
        let on_unit_sphere = Self::random_unit_vector(rng);
        if dot(&on_unit_sphere, normal) > 0 {
            on_unit_sphere
        } else {
            on_unit_sphere.neg()
        }
    }

    /// Rejection-samples the open unit disk in the xy-plane. As with
    /// `random_unit_vector` the rounds are capped; the disk's centre stands
    /// in once the cap is spent.
    #[verifier::rlimit(50)]
    pub fn random_in_unit_disk(rng: &mut Rng) -> (r: Self)
        ensures
            r == spec_random_in_unit_disk(old(rng).state).0,
            final(rng).state == spec_random_in_unit_disk(old(rng).state).1,
    {
        let mut tries: u64 = UNIT_TRIES;
        while tries > 0
            invariant
                spec_rid_go(rng.state, tries as nat) == spec_rid_go(
                    old(rng).state,
                    UNIT_TRIES as nat,
                ),
            decreases tries,
        {
            let ghost prev = rng.state;
            let ghost t = tries as nat;
            let x = random_symmetric(rng);
            let y = random_symmetric(rng);
            let p = Vec3 { x, y, z: 0 };
            let lensq = p.length_squared();
            proof {
                if (lensq as int) < SCALE as int {
                    assert(spec_rid_go(prev, t) == (p, rng.state));
                } else {
                    assert(spec_rid_go(prev, t) == spec_rid_go(rng.state, (t - 1) as nat));
                }
            }
            if lensq < SCALE {
                return p;
            }
            tries = tries - 1;
        }
        Vec3 { x: 0, y: 0, z: 0 }
    }

    pub fn reflect(&self, n: &Point3) -> (r: Self)
        ensures
            r == v_reflect(*self, *n),
    {
        let d = dot(self, n);
        self.sub(&n.scale(fp_add(d, d)))
    }

    pub fn refract(&self, n: &Point3, etai_over_etat: i64) -> (r: Self)
        ensures
            r == v_refract(*self, *n, etai_over_etat as int),
    {
        let d = dot(&self.neg(), n);
        let cos_theta = if d > SCALE {
            SCALE
        } else {
            d
        };
        let r_out_perp = self.add(&n.scale(cos_theta)).scale(etai_over_etat);
        proof {
            lemma_norm_sq_nonneg(r_out_perp);
        }
        let a = fp_sqrt(fp_abs(fp_sub(SCALE, r_out_perp.length_squared())));
        r_out_perp.add(&n.scale(fp_neg(a)))
    }
}

/// A channel clamped into `[0, 1]`: radiance outside that range has no
/// 8-bit image meaning.
pub open spec fn clamp01(c: int) -> int {
    if c < 0 {
        0
    } else if c > SCALE as int {
        SCALE as int
    } else {
        c
    }
}

/// Numerator of the byte ladder: `255.9999` carried to four decimal places.
pub const BYTE_LADDER_NUM: i64 = 2559999;

/// Denominator of the byte ladder: one fixed-point unit times the same four
/// decimal places, so that `v * NUM / DEN == floor((v / SCALE) * 255.9999)`.
pub const BYTE_LADDER_DEN: i64 = 655360000;

/// Quantisation of a clamped channel to a byte:
/// `floor(channel * 255.9999)` over the real value the channel stands for.
pub open spec fn to_byte(c: int) -> u8 {
    ((clamp01(c) * (BYTE_LADDER_NUM as int)) / (BYTE_LADDER_DEN as int)) as u8
}

/// Gamma-corrected quantisation: the fixed-point square root of the clamped
/// channel, then the same `255.9999` ladder.
pub open spec fn to_byte_gamma(c: int) -> u8 {
    ((sqrt_i(clamp01(c) * (SCALE as int)) * (BYTE_LADDER_NUM as int)) / (
    BYTE_LADDER_DEN as int)) as u8
}

fn channel_clamp01(c: i64) -> (r: i64)
    ensures
        r as int == clamp01(c as int),
        0 <= r <= SCALE,
{
    if c < 0 {
        0
    } else if c > SCALE {
        SCALE
    } else {
        c
    }
}

/// The `255.9999` ladder on a clamped value: at most 255, and 255 exactly at
/// one whole unit.
fn byte_ladder(v: i64) -> (r: u8)
    requires
        0 <= v <= SCALE,
    ensures
        r as int == ((v as int) * (BYTE_LADDER_NUM as int)) / (BYTE_LADDER_DEN as int),
        r <= 255,
{
    proof {
        lemma_byte_ladder_bounds(v as int);
    }
    (((v as u64) * 2559999) / 655360000) as u8
}

proof fn lemma_byte_ladder_bounds(v: int)
    requires
        0 <= v <= SCALE as int,
    ensures
        0 <= (v * (BYTE_LADDER_NUM as int)) / (BYTE_LADDER_DEN as int) <= 255,
{
    assert(0 <= v * 2559999 <= 65536int * 2559999) by (nonlinear_arith)
        requires
            0 <= v,
            v <= 65536,
    ;
    assert(65536int * 2559999 == 167772094464int) by (nonlinear_arith);
    vstd::arithmetic::div_mod::lemma_div_is_ordered(0, v * 2559999, 655360000);
    vstd::arithmetic::div_mod::lemma_div_is_ordered(v * 2559999, 167772094464, 655360000);
    assert(0int / 655360000int == 0int);
    assert(167772094464int / 655360000int == 255int);
}

fn channel_to_byte(c: i64) -> (r: u8)
    ensures
        r == to_byte(c as int),
{
    byte_ladder(channel_clamp01(c))
}

fn channel_to_byte_gamma(c: i64) -> (r: u8)
    ensures
        r == to_byte_gamma(c as int),
{
    let cc = channel_clamp01(c);
    let g = fp_sqrt(cc);
    proof {
        assert((g as int) * (g as int) <= 65536int * 65536int);
        if g as int > 65536 {
            assert(65537int * 65537int <= (g as int) * (g as int)) by (nonlinear_arith)
                requires
                    65537 <= g as int,
            ;
            assert(65537int * 65537int > 65536int * 65536int) by (nonlinear_arith);
        }
    }
    byte_ladder(g)
}

impl Colour {
    pub fn r(&self) -> (r: i64)
        ensures
            r == self.x,
    {
        self.x
    }

    pub fn g(&self) -> (r: i64)
        ensures
            r == self.y,
    {
        self.y
    }

    pub fn b(&self) -> (r: i64)
        ensures
            r == self.z,
    {
        self.z
    }

    /// The colour as bytes, channels clamped to `[0, 1]` first.
    pub fn to_rgb(&self) -> (r: [u8; 3])
        ensures
            r@ == seq![to_byte(self.x as int), to_byte(self.y as int), to_byte(self.z as int)],
    {
        let out = [channel_to_byte(self.x), channel_to_byte(self.y), channel_to_byte(self.z)];
        proof {
            assert(out@ =~= seq![
                to_byte(self.x as int),
                to_byte(self.y as int),
                to_byte(self.z as int),
            ]);
        }
        out
    }

    /// The colour as bytes with gamma correction: square root per channel
    /// before quantisation, channels clamped to `[0, 1]` first.
    pub fn to_rgb_gamma_corrected(&self) -> (r: [u8; 3])
        ensures
            r@ == seq![
                to_byte_gamma(self.x as int),
                to_byte_gamma(self.y as int),
                to_byte_gamma(self.z as int),
            ],
    {
        let out = [
            channel_to_byte_gamma(self.x),
            channel_to_byte_gamma(self.y),
            channel_to_byte_gamma(self.z),
        ];
        proof {
            assert(out@ =~= seq![
                to_byte_gamma(self.x as int),
                to_byte_gamma(self.y as int),
                to_byte_gamma(self.z as int),
            ]);
        }
        out
    }
}

pub fn dot(u: &Point3, v: &Point3) -> (r: i64)
    ensures
        r as int == v_dot(*u, *v),
{
    fp_add(fp_add(fp_mul(u.x, v.x), fp_mul(u.y, v.y)), fp_mul(u.z, v.z))
}

pub fn cross(u: &Point3, v: &Point3) -> (r: Point3)
    ensures
        r == v_cross(*u, *v),
{
    Point3 {
        x: fp_sub(fp_mul(u.y, v.z), fp_mul(u.z, v.y)),
        y: fp_sub(fp_mul(u.z, v.x), fp_mul(u.x, v.z)),
        z: fp_sub(fp_mul(u.x, v.y), fp_mul(u.y, v.x)),
    }
}

/// What `Point3::random_real` yields from a starting stream state:
/// the vector drawn and the state left behind.
pub open spec fn spec_random_real(s: u64) -> (Vec3, u64) {
    let s1 = next_state(s);
    let s2 = next_state(s1);
    let s3 = next_state(s2);
    (Vec3 { x: real_of(s), y: real_of(s1), z: real_of(s2) }, s3)
}

/// What `Point3::random_symmetric` yields from a starting stream state.
pub open spec fn spec_random_symmetric(s: u64) -> (Vec3, u64) {
    let s1 = next_state(s);
    let s2 = next_state(s1);
    let s3 = next_state(s2);
    (Vec3 { x: symm_of(s), y: symm_of(s1), z: symm_of(s2) }, s3)
}

/// Rejection rounds allowed to the samplers before the fallback stands in.
pub const UNIT_TRIES: u64 = 64;

/// One rejection-sampling pass for `random_unit_vector`: accept a point of
/// the unit ball (away from zero) and normalise it, or try again.
pub open spec fn spec_ruv_go(s: u64, tries: nat) -> (Vec3, u64)
    decreases tries,
{
    if tries == 0 {
        (Vec3 { x: SCALE, y: 0, z: 0 }, s)
    } else {
        let (p, s1) = spec_random_symmetric(s);
        let lensq = v_norm_sq(p);
        if 0 < lensq <= SCALE as int {
            (v_div_s(p, fsqrt(lensq)), s1)
        } else {
            spec_ruv_go(s1, (tries - 1) as nat)
        }
    }
}

pub open spec fn spec_random_unit_vector(s: u64) -> (Vec3, u64) {
    spec_ruv_go(s, UNIT_TRIES as nat)
}

pub open spec fn spec_random_on_hemisphere(normal: Vec3, s: u64) -> (Vec3, u64) {
    let (u, s1) = spec_random_unit_vector(s);
    if v_dot(u, normal) > 0 {
        (u, s1)
    } else {
        (v_neg(u), s1)
    }
}

/// One rejection-sampling pass for `random_in_unit_disk`.
pub open spec fn spec_rid_go(s: u64, tries: nat) -> (Vec3, u64)
    decreases tries,
{
    if tries == 0 {
        (Vec3 { x: 0, y: 0, z: 0 }, s)
    } else {
        let s1 = next_state(s);
        let s2 = next_state(s1);
        let p = Vec3 { x: symm_of(s), y: symm_of(s1), z: 0 };
        if v_norm_sq(p) < SCALE as int {
            (p, s2)
        } else {
            spec_rid_go(s2, (tries - 1) as nat)
        }
    }
}

pub open spec fn spec_random_in_unit_disk(s: u64) -> (Vec3, u64) {
    spec_rid_go(s, UNIT_TRIES as nat)
}

/// A positive squared length has a positive fixed-point square root.
pub proof fn lemma_pos_norm_sq_has_pos_sqrt(p: Vec3)
    requires
        v_norm_sq(p) > 0,
    ensures
        v_len(p) > 0,
        fsqrt(v_norm_sq(p)) > 0,
{
    let x = v_norm_sq(p) * (SCALE as int);
    assert(v_norm_sq(p) * (SCALE as int) >= 65536) by (nonlinear_arith)
        requires
            v_norm_sq(p) >= 1,
            SCALE as int == 65536,
    ;
    lemma_sqrt_exists(x);
    let r = sqrt_i(x);
    assert(is_sqrt(x, r));
    if r == 0 {
        assert(x < (0 + 1) * (0 + 1));
    }
}

proof fn lemma_expand_sq(p: int, q: int)
    ensures
        (p - q) * (p - q) == p * p - 2 * (p * q) + q * q,
{
    assert((p - q) * (p - q) == p * p - 2 * (p * q) + q * q) by (nonlinear_arith);
}

proof fn lemma_prod_sq(p: int, q: int)
    ensures
        (p * q) * (p * q) == (p * p) * (q * q),
{
    assert((p * q) * (p * q) == (p * p) * (q * q)) by (nonlinear_arith);
}

proof fn lemma_prod_swap(p: int, q: int, r: int, t: int)
    ensures
        (p * q) * (r * t) == (p * r) * (q * t),
{
    assert((p * q) * (r * t) == (p * r) * (q * t)) by (nonlinear_arith);
}

proof fn lemma_distrib3(k: int, p: int, q: int, r: int)
    ensures
        k * p + k * q + k * r == k * (p + q + r),
{
    assert(k * p + k * q + k * r == k * (p + q + r)) by (nonlinear_arith);
}

/// One component of the reflection expansion:
/// `(a*v - e*n)^2 == (a*a)*(v*v) - 2*((a*e)*(v*n)) + (e*e)*(n*n)`.
proof fn lemma_reflect_component(a: int, e: int, v: int, n: int)
    ensures
        (a * v - e * n) * (a * v - e * n) == (a * a) * (v * v) - 2 * ((a * e) * (v * n)) + (e * e)
            * (n * n),
{
    lemma_expand_sq(a * v, e * n);
    lemma_prod_sq(a, v);
    lemma_prod_sq(e, n);
    lemma_prod_swap(a, v, e, n);
}

/// Reflection preserves length. Stated over the exact integers that
/// fixed-point vectors stand for: a normal whose squared length is `s * s`
/// stands for a unit vector at scale `s`, and `s*s*v - 2*dot(v,n)*n` is
/// `s * s` times the reflection of `v` about it. Its squared length is then
/// exactly `(s*s)^2` times that of `v`: the reflection of `v` has the length
/// of `v`.
pub proof fn lemma_reflect_preserves_norm(
    vx: int,
    vy: int,
    vz: int,
    nx: int,
    ny: int,
    nz: int,
    s: int,
)
    requires
        nx * nx + ny * ny + nz * nz == s * s,
    ensures
        ({
            let d = vx * nx + vy * ny + vz * nz;
            let rx = s * s * vx - 2 * d * nx;
            let ry = s * s * vy - 2 * d * ny;
            let rz = s * s * vz - 2 * d * nz;
            rx * rx + ry * ry + rz * rz == (s * s) * (s * s) * (vx * vx + vy * vy + vz * vz)
        }),
{
    let a = s * s;
    let d = vx * nx + vy * ny + vz * nz;
    let e = 2 * d;
    assert(2 * d * nx == e * nx);
    assert(s * s * vx == a * vx);
    lemma_reflect_component(a, e, vx, nx);
    lemma_reflect_component(a, e, vy, ny);
    lemma_reflect_component(a, e, vz, nz);
    // the squared-norm terms
    lemma_distrib3(a * a, vx * vx, vy * vy, vz * vz);
    // the cross terms collapse onto the dot product
    lemma_distrib3(a * e, vx * nx, vy * ny, vz * nz);
    assert((a * e) * d == 2 * (a * (d * d))) by (nonlinear_arith)
        requires
            e == 2 * d,
    ;
    // the normal terms collapse onto the normal's squared length
    lemma_distrib3(e * e, nx * nx, ny * ny, nz * nz);
    assert((e * e) * (s * s) == 4 * (a * (d * d))) by (nonlinear_arith)
        requires
            e == 2 * d,
            a == s * s,
    ;
}

/// Every non-negative integer has an integer square root.
pub proof fn lemma_sqrt_exists(x: int)
    requires
        x >= 0,
    ensures
        is_sqrt(x, sqrt_i(x)),
    decreases x,
{
    if x == 0 {
        assert(is_sqrt(0, 0)) by (nonlinear_arith);
        assert(exists|q: int| is_sqrt(x, q));
    } else {
        lemma_sqrt_exists(x - 1);
        let r = sqrt_i(x - 1);
        assert(is_sqrt(x - 1, r));
        if x < (r + 1) * (r + 1) {
            assert(is_sqrt(x, r));
        } else {
            assert(x == (r + 1) * (r + 1));
            assert(is_sqrt(x, r + 1)) by (nonlinear_arith)
                requires
                    x == (r + 1) * (r + 1),
                    r >= 0,
            ;
        }
        assert(exists|q: int| is_sqrt(x, q));
    }
    assert(is_sqrt(x, sqrt_i(x)));
}

} // verus!

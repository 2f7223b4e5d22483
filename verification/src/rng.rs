//! A deterministic pseudo-random stream.
//!
//! The renderer draws every random quantity from this linear-congruential
//! stream, so each draw is an exact function of the state it starts from:
//! a render seeded with a fixed state is reproducible bit for bit, while
//! fresh seeds keep separate renders and separate pixels independent.

use vstd::prelude::*;

use crate::fixed::SCALE;

verus! {

/// Multiplier of the linear-congruential step (Knuth's MMIX choice).
pub const LCG_MUL: u64 = 6364136223846793005;

/// Increment of the linear-congruential step (Knuth's MMIX choice).
pub const LCG_INC: u64 = 1442695040888963407;

/// The pseudo-random stream: nothing but its current state.
#[derive(Clone, Copy, PartialEq, Eq, Structural, Debug)]
pub struct Rng {
    pub state: u64,
}

/// One linear-congruential step of the stream state.
#[verifier::opaque]
pub open spec fn next_state(s: u64) -> u64 {
    vstd::wrapping::u64_specs::wrapping_add(
        vstd::wrapping::u64_specs::wrapping_mul(s, LCG_MUL),
        LCG_INC,
    )
}

/// The value a state yields: its upper half, whose period is longest.
#[verifier::opaque]
pub open spec fn draw_of(s: u64) -> u64 {
    s / 0x1_0000_0000
}

/// The fixed-point value in `[0, 1)` that one draw from state `s` yields.
#[verifier::opaque]
pub open spec fn real_of(s: u64) -> i64 {
    (draw_of(next_state(s)) % (SCALE as u64)) as i64
}

/// The fixed-point value in `[-1, 1]` that one draw from state `s` yields.
#[verifier::opaque]
pub open spec fn symm_of(s: u64) -> i64 {
    (((draw_of(next_state(s)) as int) % (2 * (SCALE as int) + 1)) - SCALE as int) as i64
}

/// Relies on `rand::random`: one value from the thread-local system
/// generator. Nothing can be promised of a random value.
pub assume_specification<T>[ rand::random::<T> ]() -> (r: T)
    where
        rand::distr::StandardUniform: rand::distr::Distribution<T>,
;

impl Rng {
    pub fn new(seed: u64) -> (r: Rng)
        ensures
            r.state == seed,
    {
        Rng { state: seed }
    }

    /// A stream seeded freshly from the system generator: separate renders
    /// stay statistically independent.
    pub fn fresh() -> Rng {
        Rng { state: rand::random::<u64>() }
    }

    /// Advances the stream and hands back a 32-bit draw.
    pub fn next(&mut self) -> (r: u64)
        ensures
            final(self).state == next_state(old(self).state),
            r == draw_of(next_state(old(self).state)),
            r < 0x1_0000_0000,
    {
        proof {
            reveal(next_state);
            reveal(draw_of);
        }
        self.state = self.state.wrapping_mul(LCG_MUL).wrapping_add(LCG_INC);
        self.state / 0x1_0000_0000
    }
}

/// Uniform fixed-point value in `[0, 1)`.
pub fn random_real(rng: &mut Rng) -> (r: i64)
    ensures
        final(rng).state == next_state(old(rng).state),
        r == real_of(old(rng).state),
        0 <= r < SCALE,
{
    proof {
        reveal(real_of);
    }
    let d = rng.next();
    (d % (SCALE as u64)) as i64
}

/// Uniform fixed-point value in `[-1, 1]`.
pub fn random_symmetric(rng: &mut Rng) -> (r: i64)
    ensures
        final(rng).state == next_state(old(rng).state),
        r == symm_of(old(rng).state),
        -SCALE <= r <= SCALE,
{
    proof {
        reveal(symm_of);
    }
    let d = rng.next();
    let m = d % (2 * SCALE as u64 + 1);
    (m as i64) - SCALE
}

} // verus!

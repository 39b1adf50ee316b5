//! A small deterministic pseudo-random source.
//!
//! Rendering draws jitter and scatter directions from an explicit generator
//! that is passed through the call chain, so parallel workers never share
//! state and a fixed seed reproduces an image exactly. The generator is a
//! counter-free splitmix-style scrambler: exact spec functions below give the
//! value of every draw.

use vstd::prelude::*;
use crate::fx::SCALE;

verus! {

/// An explicit pseudo-random state. Two generators with equal `state` produce
/// equal streams.
pub struct Rng {
    pub state: u64,
}

/// The additive stream constant.
pub const RNG_GAMMA: u64 = 0x9E3779B97F4A7C15;

pub open spec fn spec_rng_next_state(s: u64) -> u64 {
    vstd::wrapping::u64_specs::wrapping_add(s, RNG_GAMMA)
}

/// The scrambler applied to a stream position to produce an output word.
pub open spec fn spec_rng_scramble(z0: u64) -> u64 {
    let z1 = vstd::wrapping::u64_specs::wrapping_mul(z0 ^ (z0 >> 30u64), 0xBF58476D1CE4E5B9);
    let z2 = vstd::wrapping::u64_specs::wrapping_mul(z1 ^ (z1 >> 27u64), 0x94D049BB133111EB);
    z2 ^ (z2 >> 31u64)
}

/// The word a generator in state `s` draws next.
pub open spec fn spec_rng_output(s: u64) -> u64 {
    spec_rng_scramble(spec_rng_next_state(s))
}

/// The fixed-point sample in `[0, 1)` a generator in state `s` draws next.
pub open spec fn spec_rand_unit(s: u64) -> i64 {
    (spec_rng_output(s) % (SCALE as u64)) as i64
}

/// The fixed-point sample in `[-1, 1)` a generator in state `s` draws next.
pub open spec fn spec_rand_sym(s: u64) -> i64 {
    ((spec_rng_output(s) % ((2 * SCALE) as u64)) as i64 - SCALE) as i64
}

impl Rng {
    pub fn new(seed: u64) -> (r: Rng)
        ensures
            r.state == seed,
    {
        Rng { state: seed }
    }

    pub fn next_u64(&mut self) -> (r: u64)
        ensures
            final(self).state == spec_rng_next_state(old(self).state),
            r == spec_rng_output(old(self).state),
    {
        self.state = self.state.wrapping_add(RNG_GAMMA);
        let z0: u64 = self.state;
        let z1: u64 = (z0 ^ (z0 >> 30u64)).wrapping_mul(0xBF58476D1CE4E5B9);
        let z2: u64 = (z1 ^ (z1 >> 27u64)).wrapping_mul(0x94D049BB133111EB);
        z2 ^ (z2 >> 31u64)
    }

    /// A fixed-point sample in `[0, 1)`.
    pub fn rand_unit(&mut self) -> (r: i64)
        ensures
            final(self).state == spec_rng_next_state(old(self).state),
            r == spec_rand_unit(old(self).state),
            0 <= r < SCALE,
    {
        let w: u64 = self.next_u64();
        (w % (SCALE as u64)) as i64
    }

    /// A fixed-point sample in `[-1, 1)`.
    pub fn rand_sym(&mut self) -> (r: i64)
        ensures
            final(self).state == spec_rng_next_state(old(self).state),
            r == spec_rand_sym(old(self).state),
            -SCALE <= r < SCALE,
    {
        let w: u64 = self.next_u64();
        (w % ((2 * SCALE) as u64)) as i64 - SCALE
    }
}

/// A fixed-point sample in `[0, 1)`, as a free helper.
pub fn random_f64(rng: &mut Rng) -> (r: i64)
    ensures
        final(rng).state == spec_rng_next_state(old(rng).state),
        r == spec_rand_unit(old(rng).state),
        0 <= r < SCALE,
{
    rng.rand_unit()
}

/// The fixed-point sample in `[min, max)` drawn from state `s` (up to the
/// grid: `min + u * (max - min)` with `u` in `[0, 1)`).
pub open spec fn spec_rand_range(s: u64, min: i64, max: i64) -> i64 {
    crate::fx::fxs_add(
        min as int,
        crate::fx::fxs_mul(spec_rand_unit(s) as int, crate::fx::fxs_sub(max as int, min as int)),
    ) as i64
}

/// A fixed-point sample in `[min, max)`.
pub fn random_f64_range(rng: &mut Rng, min: i64, max: i64) -> (r: i64)
    ensures
        final(rng).state == spec_rng_next_state(old(rng).state),
        r == spec_rand_range(old(rng).state, min, max),
{
    let u: i64 = rng.rand_unit();
    crate::fx::fx_add(min, crate::fx::fx_mul(u, crate::fx::fx_sub(max, min)))
}

} // verus!

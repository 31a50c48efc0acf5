//! Deterministic pseudo-random source for procedural generation.
//!
//! A two-state rotate-multiply generator, seeded from a multiplicative
//! generator; both are warmed up for 100 steps so that early outputs do not
//! reflect a low-entropy seed. Within a run the sequence is a pure function
//! of the seed.

use vstd::prelude::*;
use vstd::wrapping::u128_specs;
use vstd::wrapping::u64_specs;

verus! {

/// Multiplier of the two-state generator.
pub const ROMU_MULTIPLIER: u64 = 15_241_094_284_759_029_579;

/// Multiplier of the seeding generator.
pub const LEHMER_MULTIPLIER: u128 = 0xda94_2042_e4dd_58b5;

/// The two-state generator.
#[derive(Clone, Copy, Debug, PartialEq, Eq, Structural)]
pub struct Rng {
    /// X state: the value handed out by the next draw.
    pub xstate: u64,
    /// Y state.
    pub ystate: u64,
}

/// The seeding generator: a 128-bit multiplicative state whose upper half is
/// handed out.
#[derive(Clone, Copy, Debug, PartialEq, Eq, Structural)]
pub struct Lehmer64 {
    /// Current state.
    pub value: u128,
}

/// Left rotation of a 64-bit value by 27 bits.
pub open spec fn rotl27(x: u64) -> u64 {
    (x << 27u64) | (x >> 37u64)
}

/// One step of the two-state generator.
pub open spec fn rng_step(s: Rng) -> Rng {
    Rng {
        xstate: u64_specs::wrapping_mul(ROMU_MULTIPLIER, s.ystate),
        ystate: rotl27(u64_specs::wrapping_sub(s.ystate, s.xstate)),
    }
}

/// `n` steps of the two-state generator.
pub open spec fn rng_warm(s: Rng, n: nat) -> Rng
    decreases n,
{
    if n == 0 {
        s
    } else {
        rng_warm(rng_step(s), (n - 1) as nat)
    }
}

/// One step of the seeding generator.
pub open spec fn lehmer_step(v: u128) -> u128 {
    u128_specs::wrapping_mul(v, LEHMER_MULTIPLIER)
}

/// `n` steps of the seeding generator.
pub open spec fn lehmer_warm(v: u128, n: nat) -> u128
    decreases n,
{
    if n == 0 {
        v
    } else {
        lehmer_warm(lehmer_step(v), (n - 1) as nat)
    }
}

/// The fully seeded and warmed-up two-state generator for a given seed.
pub open spec fn rng_seeded(seed: u64) -> Rng {
    let v0 = lehmer_warm(seed as u128, 100);
    let v1 = lehmer_step(v0);
    let v2 = lehmer_step(v1);
    rng_warm(Rng { xstate: (v1 >> 64u128) as u64, ystate: (v2 >> 64u128) as u64 }, 100)
}

/// Warming for one more step is one step applied to the warmed state.
pub proof fn lemma_rng_warm_unfold(s: Rng, n: nat)
    ensures
        rng_warm(s, (n + 1) as nat) == rng_step(rng_warm(s, n)),
    decreases n,
{
    assert(rng_warm(s, (n + 1) as nat) == rng_warm(rng_step(s), n));
    if n > 0 {
        lemma_rng_warm_unfold(rng_step(s), (n - 1) as nat);
        assert(rng_warm(s, n) == rng_warm(rng_step(s), (n - 1) as nat));
    }
}

/// Warming for one more step is one step applied to the warmed state.
proof fn lemma_lehmer_warm_unfold(v: u128, n: nat)
    ensures
        lehmer_warm(v, (n + 1) as nat) == lehmer_step(lehmer_warm(v, n)),
    decreases n,
{
    assert(lehmer_warm(v, (n + 1) as nat) == lehmer_warm(lehmer_step(v), n));
    if n > 0 {
        lemma_lehmer_warm_unfold(lehmer_step(v), (n - 1) as nat);
        assert(lehmer_warm(v, n) == lehmer_warm(lehmer_step(v), (n - 1) as nat));
    }
}

impl Lehmer64 {
    /// Seed the generator and warm it up for 100 steps.
    pub fn new(seed: u64) -> (r: Lehmer64)
        ensures
            r.value == lehmer_warm(seed as u128, 100),
    {
        let mut res = Lehmer64 { value: seed as u128 };
        let mut i: u64 = 0;
        while i < 100
            invariant
                i <= 100,
                res.value == lehmer_warm(seed as u128, i as nat),
            decreases 100 - i,
        {
            proof {
                lemma_lehmer_warm_unfold(seed as u128, i as nat);
            }
            let _ = res.next();
            i = i + 1;
        }
        res
    }

    /// Advance the state and hand out its upper 64 bits.
    pub fn next(&mut self) -> (r: u64)
        ensures
            final(self).value == lehmer_step(old(self).value),
            r == final(self).value >> 64u128,
    {
        self.value = self.value.wrapping_mul(LEHMER_MULTIPLIER);
        let v = self.value;
        let hi = v >> 64;
        proof {
            assert(v >> 64u128 <= 0xffff_ffff_ffff_ffffu128) by (bit_vector);
        }
        hi as u64
    }
}

impl Rng {
    /// Seed the generator from the seeding generator and warm it up for 100
    /// steps.
    pub fn new(seed: u64) -> (r: Rng)
        ensures
            r == rng_seeded(seed),
    {
        let mut lehmer = Lehmer64::new(seed);
        let x = lehmer.next();
        let y = lehmer.next();
        let mut res = Rng { xstate: x, ystate: y };
        let ghost start = res;
        let mut i: u64 = 0;
        while i < 100
            invariant
                i <= 100,
                res == rng_warm(start, i as nat),
            decreases 100 - i,
        {
            proof {
                lemma_rng_warm_unfold(start, i as nat);
            }
            let _ = res.next();
            i = i + 1;
        }
        res
    }

    /// Hand out the current x state and advance both states.
    pub fn next(&mut self) -> (r: u64)
        ensures
            r == old(self).xstate,
            *final(self) == rng_step(*old(self)),
    {
        let xp = self.xstate;
        self.xstate = ROMU_MULTIPLIER.wrapping_mul(self.ystate);
        let t = self.ystate.wrapping_sub(xp);
        self.ystate = (t << 27) | (t >> 37);
        xp
    }
}

} // verus!

//! A seeded linear congruential generator: reproducible pseudo-random
//! streams for fixtures and for ballast byte patterns.

use vstd::prelude::*;

verus! {

pub open spec fn wmul(x: u64, y: u64) -> u64 {
    ((x as nat * y as nat) % 0x1_0000_0000_0000_0000) as u64
}

pub open spec fn wadd(x: u64, y: u64) -> u64 {
    if x + y > u64::MAX {
        (x + y - 0x1_0000_0000_0000_0000) as u64
    } else {
        (x + y) as u64
    }
}

/// Multiplier of the generator.
pub const LCG_MUL: u64 = 6_364_136_223_846_793_005;

/// One generator step: `state * LCG_MUL + 1` modulo 2^64.
pub open spec fn lcg_step(s: u64) -> u64 {
    wadd(wmul(s, LCG_MUL), 1)
}

/// The state after `k` steps from `seed`.
pub open spec fn lcg_iter(seed: u64, k: nat) -> u64
    decreases k,
{
    if k == 0 { seed } else { lcg_step(lcg_iter(seed, (k - 1) as nat)) }
}

pub fn lcg_step_exec(s: u64) -> (r: u64)
    ensures
        r == lcg_step(s),
{
    s.wrapping_mul(LCG_MUL).wrapping_add(1)
}

/// Seeded generator state.
#[derive(Debug, Clone, Copy, PartialEq, Eq, Structural)]
pub struct SeededRng {
    pub state: u64,
}

impl SeededRng {
    pub fn new(seed: u64) -> (r: Self)
        ensures
            r.state == seed,
    {
        SeededRng { state: seed }
    }

    /// Advances the generator and returns the new state.
    pub fn next_u64(&mut self) -> (r: u64)
        ensures
            r == lcg_step(old(self).state),
            final(self).state == r,
    {
        self.state = lcg_step_exec(self.state);
        self.state
    }

    /// A value in `lo..=hi`: `lo + next % (hi - lo + 1)`.
    pub fn next_range(&mut self, lo: u64, hi: u64) -> (r: u64)
        requires
            lo <= hi,
            hi - lo < u64::MAX,
        ensures
            final(self).state == lcg_step(old(self).state),
            r == lo + final(self).state % ((hi - lo + 1) as u64),
            lo <= r <= hi,
    {
        let x = self.next_u64();
        let span: u64 = hi - lo + 1;
        lo + x % span
    }
}

} // verus!

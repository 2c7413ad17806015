//! An explicit, seeded pseudo-random source.
//!
//! The simulation's only nondeterminism is the weighted spawn draw of the
//! emitters.  Holding that randomness in an explicitly threaded, seeded
//! generator keeps every run reproducible, which the probabilistic and
//! end-to-end properties of the library depend on.  The generator is the
//! SplitMix64 sequence; its whole behaviour is stated exactly in the
//! contracts below.

use vstd::prelude::*;

use crate::fixed::LIM;

verus! {

/// SplitMix64 state increment.
pub const SM_GAMMA: u64 = 0x9E3779B97F4A7C15;

/// First SplitMix64 mixing multiplier.
pub const SM_MUL1: u64 = 0xBF58476D1CE4E5B9;

/// Second SplitMix64 mixing multiplier.
pub const SM_MUL2: u64 = 0x94D049BB133111EB;

/// The state that follows `s` in the SplitMix64 sequence.
pub open spec fn sm_next(s: u64) -> u64 {
    vstd::wrapping::u64_specs::wrapping_add(s, SM_GAMMA)
}

/// The output word derived from a SplitMix64 state.
pub open spec fn sm_mix(z0: u64) -> u64 {
    let z1 = vstd::wrapping::u64_specs::wrapping_mul(z0 ^ (z0 >> 30), SM_MUL1);
    let z2 = vstd::wrapping::u64_specs::wrapping_mul(z1 ^ (z1 >> 27), SM_MUL2);
    z2 ^ (z2 >> 31)
}

/// The value that a draw over `[lo, hi]` yields from state `s0`.
pub open spec fn sm_draw(s0: u64, lo: int, hi: int) -> int
    recommends
        lo <= hi,
{
    lo + (sm_mix(sm_next(s0)) as int) % (hi - lo + 1)
}

/// Every draw lands inside the requested window.
pub proof fn lemma_draw_range(s0: u64, lo: int, hi: int)
    requires
        lo <= hi,
    ensures
        lo <= sm_draw(s0, lo, hi) <= hi,
{
    let w = sm_mix(sm_next(s0)) as int;
    let span = hi - lo + 1;
    assert(0 <= w % span < span) by (nonlinear_arith)
        requires
            span > 0,
            w >= 0,
    ;
}

/// A deterministic pseudo-random source with explicit state.
#[derive(Clone, Copy, PartialEq, Eq, Structural, Debug)]
pub struct RandomSource {
    pub state: u64,
}

impl RandomSource {
    /// Creates a source from a seed; equal seeds give equal draw sequences.
    pub fn new(seed: u64) -> (r: RandomSource)
        ensures
            r.state == seed,
    {
        RandomSource { state: seed }
    }

    /// Advances the state once and returns the mixed output word.
    pub fn next_word(&mut self) -> (r: u64)
        ensures
            final(self).state == sm_next(old(self).state),
            r == sm_mix(final(self).state),
    {
        self.state = self.state.wrapping_add(SM_GAMMA);
        let z0: u64 = self.state;
        let z1: u64 = (z0 ^ (z0 >> 30)).wrapping_mul(SM_MUL1);
        let z2: u64 = (z1 ^ (z1 >> 27)).wrapping_mul(SM_MUL2);
        z2 ^ (z2 >> 31)
    }

    /// Draws a value in `[lo, hi]`, edges included.
    pub fn next_range(&mut self, lo: i64, hi: i64) -> (r: i64)
        requires
            -LIM <= lo <= hi <= LIM,
        ensures
            final(self).state == sm_next(old(self).state),
            lo <= r <= hi,
            r == sm_draw(old(self).state, lo as int, hi as int),
    {
        let w: u64 = self.next_word();
        let span: u64 = ((hi - lo) as u64) + 1;
        let off: u64 = w % span;
        lo + (off as i64)
    }
}

} // verus!

//! An emitter: a spawn rectangle plus a modulation triple (size, speed,
//! spawn probability) that an external controller overwrites each tick.
//! Emission is a weighted draw from the explicit random source.

use vstd::prelude::*;

use crate::fixed::FP;
use crate::fixed::LIM;
use crate::fixed::Rect;
use crate::fixed::Vec2;
use crate::fixed::clip;
use crate::fixed::fpmul;
use crate::fixed::in_rect;
use crate::fixed::tdiv;
use crate::fixed::wf_rect;
use crate::particle::Particle;
use crate::particle::wf_particle;
use crate::rng::RandomSource;
use crate::rng::sm_draw;
use crate::rng::sm_next;

verus! {

/// Lifetime, in ticks, of every emitted particle.
pub const LIFETIMES: i64 = 100_000;

/// The modulation triple: size multiplier, speed multiplier and spawn
/// probability, all in fixed point; the probability lives in `[0, FP]`.
#[derive(Clone, Copy, PartialEq, Eq, Structural, Debug)]
pub struct Modulation {
    pub size: i64,
    pub speed: i64,
    pub probability: i64,
}

/// Multipliers are nonnegative and in band; the probability is a weight in
/// `[0, FP]`.
pub open spec fn wf_modulation(m: Modulation) -> bool {
    &&& 0 <= m.size <= LIM as int
    &&& 0 <= m.speed <= LIM as int
    &&& 0 <= m.probability <= FP as int
}

impl Modulation {
    /// The neutral modulation: unit multipliers, certain emission.
    pub fn new() -> (r: Modulation)
        ensures
            r.size == FP,
            r.speed == FP,
            r.probability == FP,
            wf_modulation(r),
    {
        Modulation { size: FP, speed: FP, probability: FP }
    }
}

/// A spawn region with its current modulation.
#[derive(Clone, Copy, PartialEq, Eq, Structural, Debug)]
pub struct Source {
    pub extent: Rect,
    pub modulation: Modulation,
}

pub open spec fn wf_source(s: Source) -> bool {
    &&& wf_rect(s.extent)
    &&& wf_modulation(s.modulation)
}

/// A multiplier handed to `modulate`, clamped into `[0, LIM]`.
pub open spec fn clamp_mult(x: int) -> int {
    if x < 0 {
        0
    } else if x > LIM as int {
        LIM as int
    } else {
        x
    }
}

/// A probability handed to `modulate`, clamped into `[0, FP]`.
pub open spec fn clamp_prob(x: int) -> int {
    if x < 0 {
        0
    } else if x > FP as int {
        FP as int
    } else {
        x
    }
}

/// The mass of a particle this source would emit for a base size.
pub open spec fn emit_mass(s: Source, base_size: int) -> int {
    clip(tdiv(base_size * s.modulation.size, FP as int))
}

/// The speed scale of a particle this source would emit for a base speed.
pub open spec fn emit_speed(s: Source, base_speed: int) -> int {
    clip(tdiv(base_speed * s.modulation.speed, FP as int))
}

/// Whether a draw `u` in `[0, FP - 1]` makes this source emit: the weighted
/// coin lands under the probability, and the emitted mass is positive (a
/// modulation that would produce a massless particle emits nothing).
pub open spec fn emits(s: Source, base_size: int, u: int) -> bool {
    &&& s.modulation.probability > u
    &&& emit_mass(s, base_size) > 0
}

impl Source {
    /// A source covering `extent`, with the neutral modulation.
    pub fn new(extent: Rect) -> (r: Source)
        requires
            wf_rect(extent),
        ensures
            r.extent == extent,
            r.modulation.size == FP,
            r.modulation.speed == FP,
            r.modulation.probability == FP,
            wf_source(r),
    {
        Source { extent, modulation: Modulation::new() }
    }

    /// Overwrites the modulation triple.  Values are validated at this
    /// boundary: multipliers are clamped to `[0, LIM]` and the probability
    /// to `[0, FP]`, so no out-of-range modulation can reach the emitter.
    pub fn modulate(&mut self, size: i64, speed: i64, probability: i64)
        ensures
            final(self).modulation.size == clamp_mult(size as int),
            final(self).modulation.speed == clamp_mult(speed as int),
            final(self).modulation.probability == clamp_prob(probability as int),
            final(self).extent == old(self).extent,
            wf_modulation(final(self).modulation),
    {
        self.modulation.size = if size < 0 {
            0
        } else if size > LIM {
            LIM
        } else {
            size
        };
        self.modulation.speed = if speed < 0 {
            0
        } else if speed > LIM {
            LIM
        } else {
            speed
        };
        self.modulation.probability = if probability < 0 {
            0
        } else if probability > FP {
            FP
        } else {
            probability
        };
    }

    /// One weighted emission attempt.  A uniform draw `u` in `[0, FP - 1]`
    /// is taken from the random source; if it lands under the spawn
    /// probability (and the modulated mass is positive), a particle is
    /// born at a uniformly drawn position inside the spawn rectangle, with
    /// the modulated mass, the fixed lifetime, and a velocity on the fixed
    /// diagonal scaled by the modulated speed.
    pub fn get(&self, base_size: i64, base_speed: i64, rng: &mut RandomSource) -> (r: Option<
        Particle,
    >)
        requires
            wf_source(*self),
            0 <= base_size <= LIM,
            0 <= base_speed <= LIM,
        ensures
            r is Some <==> emits(*self, base_size as int, sm_draw(old(rng).state, 0, FP - 1)),
            r matches Some(p) ==> {
                let st1 = sm_next(old(rng).state);
                let st2 = sm_next(st1);
                &&& p.mass == emit_mass(*self, base_size as int)
                &&& p.position.x == sm_draw(st1, self.extent.left as int, self.extent.right as int)
                &&& p.position.y == sm_draw(st2, self.extent.bottom as int, self.extent.top as int)
                &&& in_rect(p.position, self.extent)
                &&& p.velocity.x == clip(-2 * emit_speed(*self, base_speed as int))
                &&& p.velocity.y == emit_speed(*self, base_speed as int)
                &&& p.acceleration.x == 0
                &&& p.acceleration.y == 0
                &&& p.lifetime == LIFETIMES
                &&& p.lifetime_initial == LIFETIMES
                &&& wf_particle(p)
                &&& final(rng).state == sm_next(st2)
            },
            r is None ==> final(rng).state == sm_next(old(rng).state),
    {
        let u: i64 = rng.next_range(0, FP - 1);
        if self.modulation.probability > u {
            let mass: i64 = fpmul(base_size, self.modulation.size);
            if mass > 0 {
                let px: i64 = rng.next_range(self.extent.left, self.extent.right);
                let py: i64 = rng.next_range(self.extent.bottom, self.extent.top);
                let spd: i64 = fpmul(base_speed, self.modulation.speed);
                proof {
                    assert(base_speed * self.modulation.speed >= 0) by (nonlinear_arith)
                        requires
                            base_speed >= 0,
                            self.modulation.speed >= 0,
                    ;
                    assert(0 <= spd <= LIM);
                }
                let vx: i64 = if spd > 500_000_000_000 {
                    -LIM
                } else {
                    let twice: i64 = spd + spd;
                    -twice
                };
                let vel: Vec2 = Vec2 { x: vx, y: spd };
                return Some(Particle::new(mass, px, py, LIFETIMES, Some(vel)));
            }
        }
        None
    }
}

} // verus!
